use vstd::prelude::*;
use crate::regex_cache::{regex_compiles, regex_split, RegexCache};
use crate::strings::{views, Str};

verus! {

/// Bytes that separate fields when the separator is a single space.
pub open spec fn is_blank(b: u8) -> bool {
    b == 32 || b == 9 || b == 10
}

/// The maximal runs of non-blank bytes, in order.
pub open spec fn words(t: Seq<u8>) -> Seq<Seq<u8>>
    decreases t.len(),
{
    if t.len() == 0 {
        Seq::empty()
    } else {
        let w = words(t.drop_last());
        let b = t.last();
        if is_blank(b) {
            w
        } else if t.len() >= 2 && !is_blank(t[t.len() - 2]) {
            w.update(w.len() - 1, w.last().push(b))
        } else {
            w.push(seq![b])
        }
    }
}

/// The pieces of `t` between occurrences of the byte `c`; one more than there are `c`s.
pub open spec fn pieces(t: Seq<u8>, c: u8) -> Seq<Seq<u8>>
    decreases t.len(),
{
    if t.len() == 0 {
        seq![Seq::empty()]
    } else {
        let p = pieces(t.drop_last(), c);
        if t.last() == c {
            p.push(Seq::empty())
        } else {
            p.update(p.len() - 1, p.last().push(t.last()))
        }
    }
}

/// How AWK splits text by a separator: nothing from empty text; a single space
/// splits at runs of blanks and drops blanks at either end; any other single
/// byte splits at each occurrence; a longer separator is a regex, and `None`
/// means that it does not compile.
pub open spec fn split_spec(sep: Seq<u8>, t: Seq<u8>) -> Option<Seq<Seq<u8>>> {
    if t.len() == 0 {
        Some(Seq::empty())
    } else if sep == seq![32u8] {
        Some(words(t))
    } else if sep.len() == 1 {
        Some(pieces(t, sep[0]))
    } else if regex_compiles(sep) {
        Some(regex_split(sep, t))
    } else {
        None
    }
}

fn split_blanks(t: &Str) -> (r: Vec<Str>)
    ensures
        views(r@) == words(t@),
{
    let mut out: Vec<Str> = Vec::new();
    let mut cur: Vec<u8> = Vec::new();
    let mut in_word = false;
    let mut i: usize = 0;
    while i < t.len()
        invariant
            i <= t@.len(),
            in_word ==> views(out@).push(cur@) == words(t@.subrange(0, i as int)) && i > 0
                && !is_blank(t@[i - 1]),
            !in_word ==> views(out@) == words(t@.subrange(0, i as int)) && (i == 0 || is_blank(
                t@[i - 1],
            )),
        decreases t@.len() - i,
    {
        let b = t.byte_at(i);
        let ghost pre = t@.subrange(0, i as int);
        let ghost now = t@.subrange(0, i + 1);
        assert(now.drop_last() =~= pre);
        assert(now.last() == b);
        if b == 32 || b == 9 || b == 10 {
            if in_word {
                let ghost o = views(out@);
                let word = Str::from_vec(cur);
                out.push(word);
                cur = Vec::new();
                assert(views(out@) =~= o.push(word@));
            }
            in_word = false;
        } else if in_word {
            let ghost o = views(out@);
            let ghost c = cur@;
            cur.push(b);
            assert(now.len() >= 2 && now[now.len() - 2] == t@[i - 1]);
            assert(o.push(c).update(o.len() as int, c.push(b)) =~= o.push(cur@));
        } else {
            cur = Vec::new();
            cur.push(b);
            in_word = true;
            assert(i > 0 ==> now[now.len() - 2] == t@[i - 1]);
            assert(cur@ =~= seq![b]);
        }
        i = i + 1;
    }
    assert(t@.subrange(0, t@.len() as int) =~= t@);
    if in_word {
        let ghost o = views(out@);
        let word = Str::from_vec(cur);
        out.push(word);
        assert(views(out@) =~= o.push(word@));
    }
    out
}

fn split_byte(t: &Str, c: u8) -> (r: Vec<Str>)
    ensures
        views(r@) == pieces(t@, c),
{
    let mut out: Vec<Str> = Vec::new();
    let mut cur: Vec<u8> = Vec::new();
    let mut i: usize = 0;
    assert(t@.subrange(0, 0) =~= Seq::<u8>::empty());
    assert(views(out@).push(cur@) =~= seq![Seq::<u8>::empty()]);
    while i < t.len()
        invariant
            i <= t@.len(),
            views(out@).push(cur@) == pieces(t@.subrange(0, i as int), c),
        decreases t@.len() - i,
    {
        let b = t.byte_at(i);
        let ghost pre = t@.subrange(0, i as int);
        let ghost now = t@.subrange(0, i + 1);
        assert(now.drop_last() =~= pre);
        assert(now.last() == b);
        let ghost o = views(out@);
        let ghost cv = cur@;
        if b == c {
            let piece = Str::from_vec(cur);
            out.push(piece);
            cur = Vec::new();
            assert(views(out@) =~= o.push(cv));
            assert(views(out@).push(cur@) =~= o.push(cv).push(Seq::<u8>::empty()));
        } else {
            cur.push(b);
            assert(o.push(cv).update(o.len() as int, cv.push(b)) =~= o.push(cur@));
        }
        i = i + 1;
    }
    assert(t@.subrange(0, t@.len() as int) =~= t@);
    let ghost o = views(out@);
    let piece = Str::from_vec(cur);
    out.push(piece);
    assert(views(out@) =~= o.push(piece@));
    out
}

/// Splits `t` by the separator `sep` as AWK splits records into fields.
pub fn split_fields(cache: &mut RegexCache, sep: &Str, t: &Str) -> (r: Option<Vec<Str>>)
    requires
        old(cache).wf(),
    ensures
        final(cache).wf(),
        match r {
            Some(v) => split_spec(sep@, t@) == Some(views(v@)),
            None => split_spec(sep@, t@) is None,
        },
{
    if t.len() == 0 {
        let v: Vec<Str> = Vec::new();
        assert(views(v@) =~= Seq::<Seq<u8>>::empty());
        Some(v)
    } else if sep.len() == 1 && sep.byte_at(0) == 32 {
        assert(sep@ =~= seq![32u8]);
        Some(split_blanks(t))
    } else if sep.len() == 1 {
        assert(sep@ != seq![32u8]);
        Some(split_byte(t, sep.byte_at(0)))
    } else {
        assert(sep@ != seq![32u8]);
        cache.split(sep, t)
    }
}

} // verus!
