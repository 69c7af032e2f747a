use vstd::prelude::*;

verus! {

/// The EIP-712 type of one field of a transaction schema.
#[derive(Clone, Copy, Debug, PartialEq, Eq, Structural)]
pub enum FieldKind {
    Str,
    Bool,
    Uint64,
    Address,
    Bytes32,
}

/// The name that a field kind carries in a canonical type string.
pub open spec fn kind_name(k: FieldKind) -> Seq<char> {
    match k {
        FieldKind::Str => "string"@,
        FieldKind::Bool => "bool"@,
        FieldKind::Uint64 => "uint64"@,
        FieldKind::Address => "address"@,
        FieldKind::Bytes32 => "bytes32"@,
    }
}

impl FieldKind {
    /// The name of this kind in a canonical type string.
    pub fn label(self) -> (r: &'static str)
        ensures
            r@ == kind_name(self),
    {
        match self {
            FieldKind::Str => "string",
            FieldKind::Bool => "bool",
            FieldKind::Uint64 => "uint64",
            FieldKind::Address => "address",
            FieldKind::Bytes32 => "bytes32",
        }
    }
}

/// One named, typed field of a transaction schema.
pub struct SchemaField {
    pub kind: FieldKind,
    pub name: String,
}

impl View for SchemaField {
    type V = (FieldKind, Seq<char>);

    open spec fn view(&self) -> (FieldKind, Seq<char>) {
        (self.kind, self.name@)
    }
}

impl SchemaField {
    pub fn new(kind: FieldKind, name: &str) -> (r: SchemaField)
        ensures
            r@ == (kind, name@),
    {
        SchemaField { kind, name: name.to_owned() }
    }

    /// A field with the same kind and name.
    pub fn duplicate(&self) -> (r: SchemaField)
        ensures
            r@ == self@,
    {
        SchemaField { kind: self.kind, name: self.name.clone() }
    }
}

/// The mathematical content of a schema: its name, its ordered fields and the
/// name of the field after which multi-signature fields are inserted.
pub ghost struct SchemaView {
    pub name: Seq<char>,
    pub fields: Seq<(FieldKind, Seq<char>)>,
    pub anchor: Seq<char>,
}

/// A named, ordered field list describing one transaction kind.
pub struct TypeSchema {
    pub name: String,
    pub fields: Vec<SchemaField>,
    pub anchor_field: String,
}

impl View for TypeSchema {
    type V = SchemaView;

    open spec fn view(&self) -> SchemaView {
        SchemaView {
            name: self.name@,
            fields: self.fields@.map_values(|f: SchemaField| f@),
            anchor: self.anchor_field@,
        }
    }
}

/// The name of the field conventionally used as anchor.
pub open spec fn default_anchor() -> Seq<char> {
    "hyperliquidChain"@
}

/// The name of the first injected multi-signature field.
pub open spec fn multisig_user_field() -> Seq<char> {
    "payloadMultiSigUser"@
}

/// The name of the second injected multi-signature field.
pub open spec fn outer_signer_field() -> Seq<char> {
    "outerSigner"@
}

/// `kind name`, one entry of a canonical type string.
pub open spec fn field_entry(f: (FieldKind, Seq<char>)) -> Seq<char> {
    kind_name(f.0) + " "@ + f.1
}

/// The entries of `fs` joined by commas, in order, with no trailing comma.
pub open spec fn join_entries(fs: Seq<(FieldKind, Seq<char>)>) -> Seq<char>
    decreases fs.len(),
{
    if fs.len() == 0 {
        Seq::empty()
    } else if fs.len() == 1 {
        field_entry(fs[0])
    } else {
        join_entries(fs.drop_last()) + ","@ + field_entry(fs.last())
    }
}

/// `HyperliquidTransaction:<Name>(<type1> <field1>,<type2> <field2>,...)`.
pub open spec fn type_string(s: SchemaView) -> Seq<char> {
    "HyperliquidTransaction:"@ + s.name + "("@ + join_entries(s.fields) + ")"@
}

/// The index of the last field named `n`, or -1 where there is none.
pub open spec fn index_of_field(fs: Seq<(FieldKind, Seq<char>)>, n: Seq<char>) -> int
    decreases fs.len(),
{
    if fs.len() == 0 {
        -1
    } else if fs.last().1 == n {
        fs.len() - 1
    } else {
        index_of_field(fs.drop_last(), n)
    }
}

/// Whether some field of the schema carries the anchor's name.
pub open spec fn has_anchor(s: SchemaView) -> bool {
    exists|j: int| 0 <= j < s.fields.len() && #[trigger] s.fields[j].1 == s.anchor
}

/// The two address fields that a multi-signature variant carries.
pub open spec fn multisig_entries() -> Seq<(FieldKind, Seq<char>)> {
    seq![(FieldKind::Address, multisig_user_field()), (FieldKind::Address, outer_signer_field())]
}

/// The multi-signature variant: the two address fields inserted right after the anchor.
pub open spec fn multisig_view(s: SchemaView) -> SchemaView {
    let i = index_of_field(s.fields, s.anchor);
    SchemaView {
        name: s.name,
        fields: s.fields.subrange(0, i + 1) + multisig_entries() + s.fields.subrange(
            i + 1,
            s.fields.len() as int,
        ),
        anchor: s.anchor,
    }
}

/// The reason a multi-signature variant cannot be derived.
#[derive(Clone, Debug)]
pub enum SchemaError {
    /// The schema of this name has no field named like its anchor.
    MissingAnchor(String),
}

impl TypeSchema {
    /// A schema whose anchor is the `hyperliquidChain` field.
    pub fn new(name: &str, fields: Vec<SchemaField>) -> (r: TypeSchema)
        ensures
            r@.name == name@,
            r@.fields == fields@.map_values(|f: SchemaField| f@),
            r@.anchor == default_anchor(),
    {
        TypeSchema { name: name.to_owned(), fields, anchor_field: "hyperliquidChain".to_owned() }
    }

    /// The number of fields.
    pub fn len(&self) -> (r: usize)
        ensures
            r == self@.fields.len(),
    {
        self.fields.len()
    }
}

/// The canonical type string of a schema.
pub fn canonical_type_string(schema: &TypeSchema) -> (r: String)
    ensures
        r@ == type_string(schema@),
{
    let ghost fs = schema@.fields;
    let mut s = "HyperliquidTransaction:".to_owned();
    s.append(schema.name.as_str());
    s.append("(");
    let ghost head = s@;
    let mut i: usize = 0;
    while i < schema.fields.len()
        invariant
            i <= fs.len(),
            fs == schema@.fields,
            s@ == head + join_entries(fs.subrange(0, i as int)),
        decreases fs.len() - i,
    {
        let f = &schema.fields[i];
        let ghost before = s@;
        if i > 0 {
            s.append(",");
        }
        s.append(f.kind.label());
        s.append(" ");
        s.append(f.name.as_str());
        proof {
            let sub = fs.subrange(0, i + 1);
            assert(sub.drop_last() == fs.subrange(0, i as int));
            assert(sub.last() == fs[i as int]);
            assert(fs[i as int] == schema.fields@[i as int]@);
            if i == 0 {
                assert(s@ == before + field_entry(fs[i as int]));
            } else {
                assert(s@ == before + ","@ + field_entry(fs[i as int]));
            }
        }
        i = i + 1;
    }
    assert(fs.subrange(0, fs.len() as int) == fs);
    s.append(")");
    s
}

/// The position of the last field that carries the anchor's name.
pub fn anchor_position(schema: &TypeSchema) -> (r: Option<usize>)
    ensures
        r is None <==> !has_anchor(schema@),
        r matches Some(k) ==> k == index_of_field(schema@.fields, schema@.anchor) && k
            < schema@.fields.len(),
{
    let ghost fs = schema@.fields;
    let ghost anchor = schema@.anchor;
    let mut found: Option<usize> = None;
    let mut i: usize = 0;
    while i < schema.fields.len()
        invariant
            i <= fs.len(),
            fs == schema@.fields,
            anchor == schema@.anchor,
            found matches Some(k) ==> index_of_field(fs.subrange(0, i as int), anchor) == k,
            found is None ==> index_of_field(fs.subrange(0, i as int), anchor) == -1,
        decreases fs.len() - i,
    {
        proof {
            let sub = fs.subrange(0, i + 1);
            assert(sub.drop_last() == fs.subrange(0, i as int));
            assert(sub.last() == fs[i as int]);
            assert(fs[i as int] == schema.fields@[i as int]@);
        }
        if schema.fields[i].name == schema.anchor_field {
            found = Some(i);
        }
        i = i + 1;
    }
    assert(fs.subrange(0, fs.len() as int) == fs);
    proof {
        lemma_index_of_field(fs, anchor);
    }
    found
}

/// The multi-signature variant of `schema`: `address payloadMultiSigUser` and
/// `address outerSigner` inserted right after the (last) anchor field.
pub fn derive_multisig_schema(schema: &TypeSchema) -> (r: Result<TypeSchema, SchemaError>)
    ensures
        r is Err <==> !has_anchor(schema@),
        r matches Err(SchemaError::MissingAnchor(name)) ==> name@ == schema@.name,
        r matches Ok(d) ==> d@ == multisig_view(schema@),
{
    let found = anchor_position(schema);
    match found {
        None => Err(SchemaError::MissingAnchor(schema.name.clone())),
        Some(k) => {
            let out = with_multisig_fields(&schema.fields, k);
            Ok(
                TypeSchema {
                    name: schema.name.clone(),
                    fields: out,
                    anchor_field: schema.anchor_field.clone(),
                },
            )
        },
    }
}

/// The views of a sequence of fields.
pub open spec fn field_views(v: Seq<SchemaField>) -> Seq<(FieldKind, Seq<char>)> {
    v.map_values(|f: SchemaField| f@)
}

/// Copies of `src` with the two multi-signature fields inserted after index `k`.
fn with_multisig_fields(src: &Vec<SchemaField>, k: usize) -> (out: Vec<SchemaField>)
    requires
        k < src@.len(),
    ensures
        field_views(out@) == field_views(src@).subrange(0, k + 1) + multisig_entries()
            + field_views(src@).subrange(k + 1, src@.len() as int),
{
    let n = src.len();
    let mut out: Vec<SchemaField> = Vec::new();
    copy_fields(&mut out, src, 0, k + 1);
    let ghost prefix = out@;
    let a = SchemaField::new(FieldKind::Address, "payloadMultiSigUser");
    let b = SchemaField::new(FieldKind::Address, "outerSigner");
    out.push(a);
    out.push(b);
    proof {
        assert(field_views(out@) =~= field_views(prefix) + multisig_entries());
    }
    copy_fields(&mut out, src, k + 1, src.len());
    out
}

/// Appends copies of `src[from..to]` to `out`.
fn copy_fields(out: &mut Vec<SchemaField>, src: &Vec<SchemaField>, from: usize, to: usize)
    requires
        from <= to <= src@.len(),
    ensures
        field_views(final(out)@) == field_views(old(out)@) + field_views(src@).subrange(
            from as int,
            to as int,
        ),
{
    let ghost start = field_views(out@);
    let mut j: usize = from;
    while j < to
        invariant
            from <= j <= to <= src@.len(),
            field_views(out@) == start + field_views(src@).subrange(from as int, j as int),
        decreases to - j,
    {
        let ghost before = out@;
        out.push(src[j].duplicate());
        proof {
            assert(field_views(out@) == field_views(before).push(src@[j as int]@));
            assert(field_views(src@).subrange(from as int, j + 1) == field_views(src@).subrange(
                from as int,
                j as int,
            ).push(src@[j as int]@));
        }
        j = j + 1;
    }
}

/// What `index_of_field` finds.
pub proof fn lemma_index_of_field(fs: Seq<(FieldKind, Seq<char>)>, n: Seq<char>)
    ensures
        -1 <= index_of_field(fs, n) < fs.len(),
        index_of_field(fs, n) == -1 <==> !(exists|j: int| 0 <= j < fs.len() && #[trigger] fs[j].1 == n),
        index_of_field(fs, n) >= 0 ==> fs[index_of_field(fs, n)].1 == n,
        forall|j: int| index_of_field(fs, n) < j < fs.len() ==> #[trigger] fs[j].1 != n,
    decreases fs.len(),
{
    if fs.len() > 0 {
        let p = fs.drop_last();
        lemma_index_of_field(p, n);
        assert forall|j: int| 0 <= j < p.len() implies #[trigger] p[j] == fs[j] by {}
        if fs.last().1 != n {
            assert forall|j: int| index_of_field(fs, n) < j < fs.len() implies #[trigger] fs[j].1 != n by {
                if j < p.len() {
                    assert(p[j] == fs[j]);
                    assert(p[j].1 != n);
                }
            }
            if index_of_field(fs, n) == -1 {
                assert forall|j: int| 0 <= j < fs.len() implies #[trigger] fs[j].1 != n by {
                    if j < p.len() {
                        assert(p[j] == fs[j]);
                    }
                }
            }
        }
    }
}

/// With the anchor present, the multi-signature variant is two fields longer,
/// keeps every field of `s` in order, and holds `payloadMultiSigUser` and
/// `outerSigner` at the two positions right after the anchor.
pub proof fn lemma_multisig_shape(s: SchemaView)
    requires
        has_anchor(s),
    ensures
        ({
            let i = index_of_field(s.fields, s.anchor);
            let d = multisig_view(s).fields;
            &&& 0 <= i < s.fields.len()
            &&& s.fields[i].1 == s.anchor
            &&& d.len() == s.fields.len() + 2
            &&& d[i + 1] == (FieldKind::Address, multisig_user_field())
            &&& d[i + 2] == (FieldKind::Address, outer_signer_field())
            &&& forall|j: int| 0 <= j <= i ==> #[trigger] d[j] == s.fields[j]
            &&& forall|j: int| i < j < s.fields.len() ==> #[trigger] d[j + 2] == s.fields[j]
        }),
{
    lemma_index_of_field(s.fields, s.anchor);
}

/// Whether `s` holds none of the characters that delimit a canonical type string.
pub open spec fn plain_name(s: Seq<char>) -> bool {
    forall|i: int|
        0 <= i < s.len() ==> #[trigger] s[i] != ' ' && s[i] != ',' && s[i] != '(' && s[i] != ')'
}

/// A schema whose name and field names hold no delimiter.
pub open spec fn plain_schema(s: SchemaView) -> bool {
    &&& plain_name(s.name)
    &&& forall|j: int| 0 <= j < s.fields.len() ==> plain_name(#[trigger] s.fields[j].1)
}

/// Whether `s` holds the character `c` nowhere.
pub open spec fn free_of(s: Seq<char>, c: char) -> bool {
    forall|i: int| 0 <= i < s.len() ==> #[trigger] s[i] != c
}

proof fn lemma_split_first(a: Seq<char>, x: Seq<char>, b: Seq<char>, y: Seq<char>, c: char)
    requires
        a + seq![c] + x == b + seq![c] + y,
        free_of(a, c),
        free_of(b, c),
    ensures
        a == b,
        x == y,
{
    let l = a + seq![c] + x;
    let r = b + seq![c] + y;
    if a.len() < b.len() {
        assert(l[a.len() as int] == c);
        assert(r[a.len() as int] == b[a.len() as int]);
    }
    if b.len() < a.len() {
        assert(r[b.len() as int] == c);
        assert(l[b.len() as int] == a[b.len() as int]);
    }
    assert(a =~= l.subrange(0, a.len() as int));
    assert(b =~= r.subrange(0, b.len() as int));
    assert(x =~= l.subrange(a.len() + 1int, l.len() as int));
    assert(y =~= r.subrange(b.len() + 1int, r.len() as int));
}

proof fn lemma_split_last(a: Seq<char>, x: Seq<char>, b: Seq<char>, y: Seq<char>, c: char)
    requires
        a + seq![c] + x == b + seq![c] + y,
        free_of(x, c),
        free_of(y, c),
    ensures
        a == b,
        x == y,
{
    let l = a + seq![c] + x;
    let r = b + seq![c] + y;
    assert(l.len() == r.len());
    if x.len() < y.len() {
        let k = l.len() - 1 - x.len();
        assert(l[k] == c);
        assert(r[k] == y[k - b.len() - 1]);
    }
    if y.len() < x.len() {
        let k = r.len() - 1 - y.len();
        assert(r[k] == c);
        assert(l[k] == x[k - a.len() - 1]);
    }
    assert(a =~= l.subrange(0, a.len() as int));
    assert(b =~= r.subrange(0, b.len() as int));
    assert(x =~= l.subrange(a.len() + 1int, l.len() as int));
    assert(y =~= r.subrange(b.len() + 1int, r.len() as int));
}

proof fn lemma_kind_name(k: FieldKind)
    ensures
        free_of(kind_name(k), ' '),
        free_of(kind_name(k), ','),
        kind_name(k).len() >= 4,
        forall|k2: FieldKind| kind_name(k2) == kind_name(k) ==> k2 == k,
{
    reveal_strlit("string");
    reveal_strlit("bool");
    reveal_strlit("uint64");
    reveal_strlit("address");
    reveal_strlit("bytes32");
    assert forall|k2: FieldKind| kind_name(k2) == kind_name(k) implies k2 == k by {
        if k2 != k {
            assert(kind_name(k2).len() != kind_name(k).len() || kind_name(k2)[0] != kind_name(
                k,
            )[0]);
        }
    }
}

proof fn lemma_entry_injective(f: (FieldKind, Seq<char>), g: (FieldKind, Seq<char>))
    requires
        field_entry(f) == field_entry(g),
    ensures
        f == g,
{
    reveal_strlit(" ");
    lemma_kind_name(f.0);
    lemma_kind_name(g.0);
    assert(" "@ == seq![' ']);
    lemma_split_first(kind_name(f.0), f.1, kind_name(g.0), g.1, ' ');
}

proof fn lemma_entry_free(f: (FieldKind, Seq<char>))
    requires
        plain_name(f.1),
    ensures
        free_of(field_entry(f), ','),
        field_entry(f).len() > 0,
{
    reveal_strlit(" ");
    lemma_kind_name(f.0);
    let e = field_entry(f);
    assert forall|i: int| 0 <= i < e.len() implies #[trigger] e[i] != ',' by {
        let n = kind_name(f.0).len();
        if i < n {
            assert(e[i] == kind_name(f.0)[i]);
        } else if i > n {
            assert(e[i] == f.1[i - n - 1]);
        }
    }
}

proof fn lemma_join_injective(fs: Seq<(FieldKind, Seq<char>)>, gs: Seq<(FieldKind, Seq<char>)>)
    requires
        join_entries(fs) == join_entries(gs),
        forall|j: int| 0 <= j < fs.len() ==> plain_name(#[trigger] fs[j].1),
        forall|j: int| 0 <= j < gs.len() ==> plain_name(#[trigger] gs[j].1),
    ensures
        fs == gs,
    decreases fs.len() + gs.len(),
{
    reveal_strlit(",");
    assert(","@ == seq![',']);
    if fs.len() > 0 {
        lemma_entry_free(fs.last());
    }
    if gs.len() > 0 {
        lemma_entry_free(gs.last());
    }
    if fs.len() >= 2 {
        lemma_join_len(fs.drop_last());
    }
    if gs.len() >= 2 {
        lemma_join_len(gs.drop_last());
    }
    if fs.len() == 0 || gs.len() == 0 {
        assert(fs.len() == 0 && gs.len() == 0);
        assert(fs =~= gs);
    } else if fs.len() == 1 && gs.len() == 1 {
        lemma_entry_injective(fs[0], gs[0]);
        assert(fs =~= gs);
    } else if fs.len() == 1 {
        let k = join_entries(gs.drop_last()).len() as int;
        assert(join_entries(gs)[k] == ',');
        assert(join_entries(fs)[k] == field_entry(fs[0])[k]);
    } else if gs.len() == 1 {
        let k = join_entries(fs.drop_last()).len() as int;
        assert(join_entries(fs)[k] == ',');
        assert(join_entries(gs)[k] == field_entry(gs[0])[k]);
    } else {
        lemma_split_last(
            join_entries(fs.drop_last()),
            field_entry(fs.last()),
            join_entries(gs.drop_last()),
            field_entry(gs.last()),
            ',',
        );
        lemma_entry_injective(fs.last(), gs.last());
        lemma_join_injective(fs.drop_last(), gs.drop_last());
        assert(fs =~= fs.drop_last().push(fs.last()));
        assert(gs =~= gs.drop_last().push(gs.last()));
    }
}

proof fn lemma_join_len(fs: Seq<(FieldKind, Seq<char>)>)
    requires
        fs.len() >= 1,
    ensures
        join_entries(fs).len() >= 4,
    decreases fs.len(),
{
    reveal_strlit(" ");
    lemma_kind_name(fs.last().0);
    lemma_kind_name(fs[0].0);
    if fs.len() >= 2 {
        lemma_join_len(fs.drop_last());
    }
}

/// Canonical type strings are injective on schemas whose names hold no
/// delimiter: equal strings come from equal names and equal field lists, so
/// reordering fields always changes the string.
pub proof fn lemma_type_string_injective(s: SchemaView, t: SchemaView)
    requires
        plain_schema(s),
        plain_schema(t),
        type_string(s) == type_string(t),
    ensures
        s.name == t.name,
        s.fields == t.fields,
{
    reveal_strlit("(");
    reveal_strlit(")");
    let p = "HyperliquidTransaction:"@;
    let ls = s.name + "("@ + join_entries(s.fields);
    let lt = t.name + "("@ + join_entries(t.fields);
    assert(type_string(s) == p + ls + ")"@);
    assert(type_string(t) == p + lt + ")"@);
    assert(ls =~= type_string(s).subrange(p.len() as int, type_string(s).len() - 1));
    assert(lt =~= type_string(t).subrange(p.len() as int, type_string(t).len() - 1));
    assert("("@ == seq!['(']);
    assert(free_of(s.name, '('));
    assert(free_of(t.name, '('));
    lemma_split_first(s.name, join_entries(s.fields), t.name, join_entries(t.fields), '(');
    lemma_join_injective(s.fields, t.fields);
}

} // verus!
