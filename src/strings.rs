use vstd::prelude::*;

verus! {

/// An immutable byte string that owns its bytes. Each value is released
/// exactly once by ownership: `ref_str` makes an independent copy for a new
/// owner, and `drop_str` consumes one value.
pub struct Str {
    bytes: Vec<u8>,
}

impl View for Str {
    type V = Seq<u8>;

    closed spec fn view(&self) -> Seq<u8> {
        self.bytes@
    }
}

/// The contents of each string in a list.
pub open spec fn views(v: Seq<Str>) -> Seq<Seq<u8>> {
    v.map_values(|s: Str| s@)
}

/// Lexicographic three-way comparison of byte sequences: -1, 0 or 1.
pub open spec fn lex_cmp(a: Seq<u8>, b: Seq<u8>) -> int
    decreases a.len(),
{
    if a.len() == 0 {
        if b.len() == 0 { 0 } else { -1 }
    } else if b.len() == 0 {
        1
    } else if a[0] < b[0] {
        -1
    } else if a[0] > b[0] {
        1
    } else {
        lex_cmp(a.drop_first(), b.drop_first())
    }
}

fn copy_bytes(b: &[u8]) -> (r: Vec<u8>)
    ensures
        r@ == b@,
{
    let mut r: Vec<u8> = Vec::with_capacity(b.len());
    let mut i: usize = 0;
    while i < b.len()
        invariant
            i <= b@.len(),
            r@ == b@.subrange(0, i as int),
        decreases b@.len() - i,
    {
        r.push(b[i]);
        i = i + 1;
    }
    r
}

impl Str {
    /// The empty string, the default of every string-valued slot.
    pub fn empty() -> (r: Str)
        ensures
            r@ == Seq::<u8>::empty(),
    {
        Str { bytes: Vec::new() }
    }

    pub fn from_bytes(b: &[u8]) -> (r: Str)
        ensures
            r@ == b@,
    {
        Str { bytes: copy_bytes(b) }
    }

    pub fn from_vec(bytes: Vec<u8>) -> (r: Str)
        ensures
            r@ == bytes@,
    {
        Str { bytes }
    }

    pub fn as_bytes(&self) -> (r: &[u8])
        ensures
            r@ == self@,
    {
        self.bytes.as_slice()
    }

    pub fn len(&self) -> (r: usize)
        ensures
            r == self@.len(),
    {
        self.bytes.len()
    }

    pub fn byte_at(&self, i: usize) -> (r: u8)
        requires
            i < self@.len(),
        ensures
            r == self@[i as int],
    {
        self.bytes[i]
    }

    /// A copy of the contents, owned by the caller.
    pub fn dup(&self) -> (r: Str)
        ensures
            r@ == self@,
    {
        Str { bytes: copy_bytes(self.bytes.as_slice()) }
    }
}

/// A copy of `s` for a new owner; `s` is left as it was.
pub fn ref_str(s: &Str) -> (r: Str)
    ensures
        r@ == s@,
{
    s.dup()
}

/// Releases one reference; the contents go when the last one does.
pub fn drop_str(s: Str) {
}

/// Byte length.
pub fn str_len(s: &Str) -> (r: usize)
    ensures
        r == s@.len(),
{
    s.len()
}

/// Bytewise concatenation; both operands are left as they were.
pub fn concat(a: &Str, b: &Str) -> (r: Str)
    requires
        a@.len() + b@.len() <= usize::MAX,
    ensures
        r@ == a@ + b@,
{
    let mut out = copy_bytes(a.as_bytes());
    let mut i: usize = 0;
    while i < b.len()
        invariant
            i <= b@.len(),
            out@ == a@ + b@.subrange(0, i as int),
        decreases b@.len() - i,
    {
        out.push(b.byte_at(i));
        i = i + 1;
        assert(out@ == a@ + b@.subrange(0, i as int));
    }
    assert(b@.subrange(0, b@.len() as int) == b@);
    Str { bytes: out }
}

proof fn lemma_lex_cmp_suffix(a: Seq<u8>, b: Seq<u8>, i: int)
    requires
        0 <= i <= a.len(),
        i <= b.len(),
        a.subrange(0, i) == b.subrange(0, i),
    ensures
        lex_cmp(a, b) == lex_cmp(a.subrange(i, a.len() as int), b.subrange(i, b.len() as int)),
    decreases i,
{
    if i > 0 {
        assert(a[0] == a.subrange(0, i)[0]);
        assert(b[0] == b.subrange(0, i)[0]);
        assert(a.drop_first().subrange(0, i - 1) == a.subrange(0, i).drop_first());
        assert(b.drop_first().subrange(0, i - 1) == b.subrange(0, i).drop_first());
        lemma_lex_cmp_suffix(a.drop_first(), b.drop_first(), i - 1);
        assert(a.drop_first().subrange(i - 1, a.len() - 1) == a.subrange(i, a.len() as int));
        assert(b.drop_first().subrange(i - 1, b.len() - 1) == b.subrange(i, b.len() as int));
    } else {
        assert(a.subrange(0, a.len() as int) == a);
        assert(b.subrange(0, b.len() as int) == b);
    }
}

/// Three-way bytewise comparison.
fn compare(a: &Str, b: &Str) -> (r: i8)
    ensures
        r as int == lex_cmp(a@, b@),
{
    let mut i: usize = 0;
    while i < a.len() && i < b.len() && a.byte_at(i) == b.byte_at(i)
        invariant
            i <= a@.len(),
            i <= b@.len(),
            a@.subrange(0, i as int) == b@.subrange(0, i as int),
        decreases a@.len() - i,
    {
        assert(a@.subrange(0, i + 1) == a@.subrange(0, i as int).push(a@[i as int]));
        assert(b@.subrange(0, i + 1) == b@.subrange(0, i as int).push(b@[i as int]));
        i = i + 1;
    }
    proof {
        lemma_lex_cmp_suffix(a@, b@, i as int);
    }
    let ghost ra = a@.subrange(i as int, a@.len() as int);
    let ghost rb = b@.subrange(i as int, b@.len() as int);
    if i == a.len() {
        if i == b.len() { 0 } else { -1 }
    } else if i == b.len() {
        1
    } else if a.byte_at(i) < b.byte_at(i) {
        assert(ra.len() > 0 && rb.len() > 0 && ra[0] == a@[i as int] && rb[0] == b@[i as int]);
        -1
    } else {
        assert(ra.len() > 0 && rb.len() > 0 && ra[0] == a@[i as int] && rb[0] == b@[i as int]);
        1
    }
}

pub fn str_lt(a: &Str, b: &Str) -> (r: i64)
    ensures
        r == (if lex_cmp(a@, b@) < 0 { 1i64 } else { 0i64 }),
{
    if compare(a, b) < 0 { 1 } else { 0 }
}

pub fn str_gt(a: &Str, b: &Str) -> (r: i64)
    ensures
        r == (if lex_cmp(a@, b@) > 0 { 1i64 } else { 0i64 }),
{
    if compare(a, b) > 0 { 1 } else { 0 }
}

pub fn str_lte(a: &Str, b: &Str) -> (r: i64)
    ensures
        r == (if lex_cmp(a@, b@) <= 0 { 1i64 } else { 0i64 }),
{
    if compare(a, b) <= 0 { 1 } else { 0 }
}

pub fn str_gte(a: &Str, b: &Str) -> (r: i64)
    ensures
        r == (if lex_cmp(a@, b@) >= 0 { 1i64 } else { 0i64 }),
{
    if compare(a, b) >= 0 { 1 } else { 0 }
}

pub fn str_eq(a: &Str, b: &Str) -> (r: i64)
    ensures
        r == (if a@ == b@ { 1i64 } else { 0i64 }),
{
    let c = compare(a, b);
    proof {
        lemma_lex_cmp_zero_iff_equal(a@, b@);
    }
    if c == 0 { 1 } else { 0 }
}

/// The comparison is zero exactly on equal sequences.
pub proof fn lemma_lex_cmp_zero_iff_equal(a: Seq<u8>, b: Seq<u8>)
    ensures
        (lex_cmp(a, b) == 0) == (a == b),
    decreases a.len(),
{
    if a.len() > 0 && b.len() > 0 && a[0] == b[0] {
        lemma_lex_cmp_zero_iff_equal(a.drop_first(), b.drop_first());
        if a.drop_first() == b.drop_first() {
            assert(a =~= seq![a[0]] + a.drop_first());
            assert(b =~= seq![b[0]] + b.drop_first());
        }
        if a == b {
            assert(a.drop_first() == b.drop_first());
        }
    } else if a.len() > 0 && b.len() > 0 {
        assert(a[0] != b[0]);
        assert(a != b);
    } else if a.len() != b.len() {
        assert(a != b);
    } else {
        assert(a =~= b);
    }
}

/// Swapping the operands negates the comparison.
pub proof fn lemma_lex_cmp_antisymmetric(a: Seq<u8>, b: Seq<u8>)
    ensures
        lex_cmp(a, b) == -lex_cmp(b, a),
        -1 <= lex_cmp(a, b) <= 1,
    decreases a.len(),
{
    if a.len() > 0 && b.len() > 0 && a[0] == b[0] {
        lemma_lex_cmp_antisymmetric(a.drop_first(), b.drop_first());
    }
}

/// The comparison is transitive, so the five operators describe one total order.
pub proof fn lemma_lex_cmp_transitive(a: Seq<u8>, b: Seq<u8>, c: Seq<u8>)
    requires
        lex_cmp(a, b) < 0,
        lex_cmp(b, c) < 0,
    ensures
        lex_cmp(a, c) < 0,
    decreases a.len(),
{
    if a.len() > 0 && b.len() > 0 && c.len() > 0 && a[0] == b[0] && b[0] == c[0] {
        lemma_lex_cmp_transitive(a.drop_first(), b.drop_first(), c.drop_first());
    }
}

/// The five comparison operators agree with each other: for any two strings
/// exactly one of `<`, `==`, `>` holds, `<=` is `<` or `==`, `>=` is `>` or
/// `==`, and swapping the operands swaps `<` with `>`.
pub proof fn lemma_comparisons_consistent(a: Seq<u8>, b: Seq<u8>)
    ensures
        (lex_cmp(a, b) < 0) || (a == b) || (lex_cmp(a, b) > 0),
        !((lex_cmp(a, b) < 0) && (a == b)),
        !((lex_cmp(a, b) > 0) && (a == b)),
        !((lex_cmp(a, b) < 0) && (lex_cmp(a, b) > 0)),
        (lex_cmp(a, b) <= 0) == ((lex_cmp(a, b) < 0) || a == b),
        (lex_cmp(a, b) >= 0) == ((lex_cmp(a, b) > 0) || a == b),
        (lex_cmp(a, b) < 0) == (lex_cmp(b, a) > 0),
{
    lemma_lex_cmp_zero_iff_equal(a, b);
    lemma_lex_cmp_antisymmetric(a, b);
}

/// A string orders before or equal to any extension of it, and strictly
/// before exactly when the extension is non-empty.
pub proof fn lemma_concat_orders_after(a: Seq<u8>, b: Seq<u8>)
    ensures
        lex_cmp(a, a + b) <= 0,
        (lex_cmp(a, a + b) < 0) == (b.len() > 0),
    decreases a.len(),
{
    if a.len() > 0 {
        assert((a + b).drop_first() =~= a.drop_first() + b);
        assert((a + b)[0] == a[0]);
        lemma_concat_orders_after(a.drop_first(), b);
    } else {
        assert(a + b =~= b);
    }
}

/// Concatenation adds lengths.
pub proof fn lemma_concat_len(a: Seq<u8>, b: Seq<u8>)
    ensures
        (a + b).len() == a.len() + b.len(),
{
}

} // verus!
