use vstd::prelude::*;
use crate::strings::{str_eq, views, Str};
use regex::bytes::Regex;

verus! {

#[verifier::external_type_specification]
#[verifier::external_body]
pub struct ExRegex(regex::bytes::Regex);

/// Whether a pattern is valid UTF-8 text that the regex engine compiles.
pub uninterp spec fn regex_compiles(pat: Seq<u8>) -> bool;

/// The pattern that a compiled regex was built from.
pub uninterp spec fn regex_source(re: Regex) -> Seq<u8>;

/// Whether the pattern matches somewhere in the text.
pub uninterp spec fn regex_is_match(pat: Seq<u8>, text: Seq<u8>) -> bool;

/// The pieces of the text between successive non-overlapping matches of the pattern.
pub uninterp spec fn regex_split(pat: Seq<u8>, text: Seq<u8>) -> Seq<Seq<u8>>;

/// Relies on `str::from_utf8` and `regex::bytes::Regex::new`: compiles the
/// pattern, keeping it as the regex's source, or fails on a pattern that is not
/// UTF-8 or not valid syntax.
#[verifier::external_body]
fn compile(pat: &Str) -> (r: Option<Regex>)
    ensures
        r is Some <==> regex_compiles(pat@),
        r matches Some(re) ==> regex_source(re) == pat@,
{
    match std::str::from_utf8(pat.as_bytes()) {
        Ok(p) => Regex::new(p).ok(),
        Err(_) => None,
    }
}

/// Relies on `regex::bytes::Regex::is_match`: whether the regex matches anywhere in `text`.
#[verifier::external_body]
fn find_in(re: &Regex, text: &Str) -> (r: bool)
    ensures
        r == regex_is_match(regex_source(*re), text@),
{
    re.is_match(text.as_bytes())
}

/// Relies on `regex::bytes::Regex::split`: the pieces of `text` between matches.
#[verifier::external_body]
fn split_on(re: &Regex, text: &Str) -> (r: Vec<Str>)
    ensures
        views(r@) == regex_split(regex_source(*re), text@),
{
    re.split(text.as_bytes()).map(Str::from_bytes).collect()
}

/// Compiled patterns, each compiled once and kept for later uses.
pub struct RegexCache {
    pats: Vec<Str>,
    res: Vec<Regex>,
}

impl RegexCache {
    pub closed spec fn wf(&self) -> bool {
        &&& self.pats@.len() == self.res@.len()
        &&& forall|i: int|
            0 <= i < self.pats@.len() ==> regex_source(#[trigger] self.res@[i]) == self.pats@[i]@
                && regex_compiles(self.pats@[i]@)
    }

    /// The patterns compiled so far, in the order they were first used.
    pub closed spec fn patterns(&self) -> Seq<Seq<u8>> {
        views(self.pats@)
    }

    pub fn new() -> (r: RegexCache)
        ensures
            r.wf(),
            r.patterns() == Seq::<Seq<u8>>::empty(),
    {
        RegexCache { pats: Vec::new(), res: Vec::new() }
    }

    /// How many patterns have been compiled.
    pub fn compiled_count(&self) -> (r: usize)
        requires
            self.wf(),
        ensures
            r == self.patterns().len(),
    {
        self.pats.len()
    }

    /// The position of the compiled `pat`, compiling it on its first use.
    fn position(&mut self, pat: &Str) -> (r: Option<usize>)
        requires
            old(self).wf(),
        ensures
            final(self).wf(),
            r is Some <==> regex_compiles(pat@),
            r matches Some(i) ==> i < final(self).res@.len() && regex_source(final(self).res@[i as int])
                == pat@,
            final(self).patterns() == (if old(self).patterns().contains(pat@) || !regex_compiles(
                pat@,
            ) {
                old(self).patterns()
            } else {
                old(self).patterns().push(pat@)
            }),
    {
        let mut i: usize = 0;
        while i < self.pats.len()
            invariant
                self.wf(),
                self == old(self),
                i <= self.pats@.len(),
                forall|j: int| 0 <= j < i ==> (#[trigger] self.pats@[j])@ != pat@,
            decreases self.pats@.len() - i,
        {
            if str_eq(&self.pats[i], pat) == 1 {
                assert(self.patterns()[i as int] == pat@);
                assert(regex_source(self.res@[i as int]) == self.pats@[i as int]@);
                return Some(i);
            }
            i = i + 1;
        }
        assert(!self.patterns().contains(pat@)) by {
            if self.patterns().contains(pat@) {
                let j = choose|j: int| 0 <= j < self.patterns().len() && self.patterns()[j] == pat@;
                assert(self.pats@[j]@ == pat@);
            }
        }
        match compile(pat) {
            Some(re) => {
                let n = self.pats.len();
                self.pats.push(pat.dup());
                self.res.push(re);
                assert(self.patterns() =~= old(self).patterns().push(pat@));
                Some(n)
            },
            None => None,
        }
    }

    /// Whether `pat` matches somewhere in `text`; `None` when `pat` does not compile.
    pub fn is_match(&mut self, pat: &Str, text: &Str) -> (r: Option<bool>)
        requires
            old(self).wf(),
        ensures
            final(self).wf(),
            r == (if regex_compiles(pat@) {
                Some(regex_is_match(pat@, text@))
            } else {
                None
            }),
            final(self).patterns() == (if old(self).patterns().contains(pat@) || !regex_compiles(
                pat@,
            ) {
                old(self).patterns()
            } else {
                old(self).patterns().push(pat@)
            }),
    {
        match self.position(pat) {
            Some(i) => Some(find_in(&self.res[i], text)),
            None => None,
        }
    }

    /// The pieces of `text` between matches of `pat`; `None` when `pat` does not compile.
    pub fn split(&mut self, pat: &Str, text: &Str) -> (r: Option<Vec<Str>>)
        requires
            old(self).wf(),
        ensures
            final(self).wf(),
            match r {
                Some(v) => regex_compiles(pat@) && views(v@) == regex_split(pat@, text@),
                None => !regex_compiles(pat@),
            },
            final(self).patterns() == (if old(self).patterns().contains(pat@) || !regex_compiles(
                pat@,
            ) {
                old(self).patterns()
            } else {
                old(self).patterns().push(pat@)
            }),
    {
        match self.position(pat) {
            Some(i) => Some(split_on(&self.res[i], text)),
            None => None,
        }
    }
}

} // verus!
