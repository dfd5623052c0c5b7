use vstd::prelude::*;
use crate::convert::{int_repr, int_to_str};
use crate::convert::lemma_int_repr_injective;
use crate::maps::{
    alloc_intstr, bump, contains_intstr, contains_strstr, insert_intstr, insert_strstr,
    lemma_contents_finite, release, MapHeap, MapKind,
};
use crate::regex_cache::{regex_compiles, regex_is_match, RegexCache};
use crate::split::{split_fields, split_spec};
use crate::strings::{views, Str};

verus! {

/// Code of the built-in variable `ARGC`.
pub const ARGC: usize = 0;
/// Code of the built-in variable `ARGV`.
pub const ARGV: usize = 1;
/// Code of the built-in variable `FS`.
pub const FS: usize = 2;
/// Code of the built-in variable `NF`.
pub const NF: usize = 3;
/// Code of the built-in variable `NR`.
pub const NR: usize = 4;
/// Code of the built-in variable `OFS`.
pub const OFS: usize = 5;
/// Code of the built-in variable `RS`.
pub const RS: usize = 6;
/// Code of the built-in variable `FILENAME`.
pub const FILENAME: usize = 7;

pub open spec fn is_str_var(code: usize) -> bool {
    code == FS || code == OFS || code == RS || code == FILENAME
}

pub open spec fn is_int_var(code: usize) -> bool {
    code == ARGC || code == NR || code == NF
}

/// The built-in variables.
pub struct Variables {
    pub fs: Str,
    pub ofs: Str,
    pub rs: Str,
    pub filename: Str,
    pub argc: i64,
    pub nr: i64,
    pub nf: i64,
    /// Handle of the integer-keyed string map `ARGV`.
    pub argv: usize,
}

/// The state of one program run: variables, the current record and its fields,
/// compiled patterns, and every associative array.
pub struct Runtime {
    pub vars: Variables,
    pub line: Str,
    /// The fields of `line`; empty until they are first needed.
    pub split_line: Vec<Str>,
    pub regexes: RegexCache,
    pub maps: MapHeap,
}

/// Field `col` (counting from 1) of a field list, empty past its end.
pub open spec fn field_at(f: Seq<Seq<u8>>, col: int) -> Seq<u8> {
    if 1 <= col <= f.len() {
        f[col - 1]
    } else {
        Seq::empty()
    }
}

/// The field list with `s` at position `idx` (from 0), padded with empty fields
/// when `idx` is past its end.
pub open spec fn place(f: Seq<Seq<u8>>, idx: int, s: Seq<u8>) -> Seq<Seq<u8>> {
    if idx < f.len() {
        f.update(idx, s)
    } else {
        f + Seq::new((idx - f.len()) as nat, |i: int| Seq::<u8>::empty()) + seq![s]
    }
}

/// The integer-keyed map after storing `toks` under the keys 1, 2, ... in order.
pub open spec fn int_keyed(m: Map<i64, Seq<u8>>, toks: Seq<Seq<u8>>) -> Map<i64, Seq<u8>>
    decreases toks.len(),
{
    if toks.len() == 0 {
        m
    } else {
        int_keyed(m, toks.drop_last()).insert(toks.len() as i64, toks.last())
    }
}

/// The string-keyed map after storing `toks` under the keys "1", "2", ... in order.
pub open spec fn str_keyed(m: Map<Seq<u8>, Seq<u8>>, toks: Seq<Seq<u8>>) -> Map<
    Seq<u8>,
    Seq<u8>,
>
    decreases toks.len(),
{
    if toks.len() == 0 {
        m
    } else {
        str_keyed(m, toks.drop_last()).insert(int_repr(toks.len() as int), toks.last())
    }
}

impl Runtime {
    pub open spec fn wf(&self) -> bool {
        &&& self.maps.wf()
        &&& self.regexes.wf()
        &&& self.maps.live(self.vars.argv as int)
        &&& self.maps.kind(self.vars.argv as int) == Some(MapKind::IntStr)
    }

    /// The fields of the current record: those already split, or else the
    /// split of `line` by `FS`; `None` when `FS` is a pattern that does not compile.
    pub open spec fn fields(&self) -> Option<Seq<Seq<u8>>> {
        if self.split_line@.len() > 0 {
            Some(views(self.split_line@))
        } else {
            split_spec(self.vars.fs@, self.line@)
        }
    }

    /// Everything but the fields, `NF` and the compiled patterns is as in `prev`.
    pub open spec fn kept_but_fields(&self, prev: &Runtime) -> bool {
        &&& self.line == prev.line
        &&& self.maps == prev.maps
        &&& self.vars.fs == prev.vars.fs
        &&& self.vars.ofs == prev.vars.ofs
        &&& self.vars.rs == prev.vars.rs
        &&& self.vars.filename == prev.vars.filename
        &&& self.vars.argc == prev.vars.argc
        &&& self.vars.nr == prev.vars.nr
        &&& self.vars.argv == prev.vars.argv
    }

    /// What making sure the fields are split does: when they were not split yet,
    /// they become the split of `line` by `FS` and `NF` their number.
    pub open spec fn realized_from(&self, prev: &Runtime) -> bool {
        &&& self.kept_but_fields(prev)
        &&& match prev.fields() {
            Some(f) => views(self.split_line@) == f && self.vars.nf == (if prev.split_line@.len()
                == 0 {
                f.len() as i64
            } else {
                prev.vars.nf
            }),
            None => self.split_line@ == prev.split_line@ && self.vars.nf == prev.vars.nf,
        }
    }

    /// A runtime with an empty record, `FS` and `OFS` a space, `RS` a newline,
    /// and an empty `ARGV`.
    pub fn new() -> (r: Runtime)
        ensures
            r.wf(),
            r.line@ == Seq::<u8>::empty(),
            r.split_line@.len() == 0,
            r.vars.fs@ == seq![32u8],
            r.vars.ofs@ == seq![32u8],
            r.vars.rs@ == seq![10u8],
            r.vars.filename@ == Seq::<u8>::empty(),
            r.vars.argc == 0 && r.vars.nr == 0 && r.vars.nf == 0,
            r.maps.intstr(r.vars.argv as int) == Map::<i64, Seq<u8>>::empty(),
            r.regexes.patterns() == Seq::<Seq<u8>>::empty(),
    {
        let mut maps = MapHeap::new();
        let argv = alloc_intstr(&mut maps);
        let space: [u8; 1] = [32u8];
        let newline: [u8; 1] = [10u8];
        let fs = Str::from_bytes(&space);
        let ofs = Str::from_bytes(&space);
        let rs = Str::from_bytes(&newline);
        assert(fs@ =~= seq![32u8]);
        assert(rs@ =~= seq![10u8]);
        Runtime {
            vars: Variables {
                fs,
                ofs,
                rs,
                filename: Str::empty(),
                argc: 0,
                nr: 0,
                nf: 0,
                argv,
            },
            line: Str::empty(),
            split_line: Vec::new(),
            regexes: RegexCache::new(),
            maps,
        }
    }
}

/// Splits the current record into fields unless that was done already; false
/// when `FS` is a pattern that does not compile.
fn realize(rt: &mut Runtime) -> (ok: bool)
    requires
        old(rt).wf(),
    ensures
        final(rt).wf(),
        ok == old(rt).fields() is Some,
        final(rt).realized_from(old(rt)),
{
    if rt.split_line.len() == 0 {
        match split_fields(&mut rt.regexes, &rt.vars.fs, &rt.line) {
            Some(v) => {
                rt.vars.nf = v.len() as i64;
                rt.split_line = v;
                true
            },
            None => false,
        }
    } else {
        true
    }
}

/// Field `col` of the current record: the whole record for 0, an empty string
/// past the last field; `None` when the fields had to be split and `FS` is a
/// pattern that does not compile.
pub fn get_col(rt: &mut Runtime, col: i64) -> (r: Option<Str>)
    requires
        old(rt).wf(),
        col >= 0,
    ensures
        final(rt).wf(),
        col == 0 ==> *final(rt) == *old(rt) && match r {
            Some(s) => s@ == old(rt).line@,
            None => false,
        },
        col > 0 ==> final(rt).realized_from(old(rt)) && match old(rt).fields() {
            Some(f) => match r {
                Some(s) => s@ == field_at(f, col as int),
                None => false,
            },
            None => r is None,
        },
{
    if col == 0 {
        return Some(rt.line.dup());
    }
    if !realize(rt) {
        return None;
    }
    let c: u64 = (col - 1) as u64;
    if c < rt.split_line.len() as u64 {
        let idx = c as usize;
        proof {
            assert(views(rt.split_line@)[idx as int] == rt.split_line@[idx as int]@);
        }
        Some(rt.split_line[idx].dup())
    } else {
        Some(Str::empty())
    }
}

/// Assigns field `col`: for 0 the whole record, which leaves the fields to be
/// split again and `NF` at -1 until then; otherwise the field, padding with
/// empty fields as needed. False when the fields had to be split and `FS` is a
/// pattern that does not compile.
pub fn set_col(rt: &mut Runtime, col: i64, s: &Str) -> (ok: bool)
    requires
        old(rt).wf(),
        col >= 0,
        col - 1 < usize::MAX,
    ensures
        final(rt).wf(),
        col == 0 ==> ok && final(rt).line@ == s@ && final(rt).split_line@.len() == 0
            && final(rt).vars.nf == -1 && final(rt).maps == old(rt).maps && final(rt).vars.fs
            == old(rt).vars.fs && final(rt).vars.ofs == old(rt).vars.ofs && final(rt).vars.rs
            == old(rt).vars.rs && final(rt).vars.filename == old(rt).vars.filename
            && final(rt).vars.argc == old(rt).vars.argc && final(rt).vars.nr == old(rt).vars.nr
            && final(rt).vars.argv == old(rt).vars.argv,
        col > 0 ==> match old(rt).fields() {
            Some(f) => ok && views(final(rt).split_line@) == place(f, col - 1, s@)
                && final(rt).vars.nf == (if old(rt).split_line@.len() == 0 {
                f.len() as i64
            } else {
                old(rt).vars.nf
            }) && final(rt).line == old(rt).line && final(rt).maps == old(rt).maps
                && final(rt).vars.fs == old(rt).vars.fs && final(rt).vars.ofs == old(rt).vars.ofs
                && final(rt).vars.rs == old(rt).vars.rs && final(rt).vars.filename == old(
                rt,
            ).vars.filename && final(rt).vars.argc == old(rt).vars.argc && final(rt).vars.nr
                == old(rt).vars.nr && final(rt).vars.argv == old(rt).vars.argv,
            None => !ok && final(rt).realized_from(old(rt)),
        },
{
    if col == 0 {
        rt.split_line = Vec::new();
        rt.line = s.dup();
        rt.vars.nf = -1;
        return true;
    }
    if !realize(rt) {
        return false;
    }
    let idx = (col - 1) as usize;
    let ghost f = views(rt.split_line@);
    let ghost mid = *rt;
    if idx < rt.split_line.len() {
        rt.split_line.set(idx, s.dup());
        assert(views(rt.split_line@) =~= place(f, idx as int, s@));
    } else {
        while rt.split_line.len() < idx
            invariant
                idx >= f.len(),
                rt.split_line@.len() <= idx,
                views(rt.split_line@) == f + Seq::new(
                    (rt.split_line@.len() - f.len()) as nat,
                    |i: int| Seq::<u8>::empty(),
                ),
                rt.vars == mid.vars,
                rt.line == mid.line,
                rt.maps == mid.maps,
                rt.regexes == mid.regexes,
            decreases idx - rt.split_line@.len(),
        {
            let ghost before = views(rt.split_line@);
            let e = Str::empty();
            let ghost ev = e@;
            rt.split_line.push(e);
            assert(views(rt.split_line@) =~= before.push(ev));
            assert(views(rt.split_line@) =~= f + Seq::new(
                (rt.split_line@.len() - f.len()) as nat,
                |i: int| Seq::<u8>::empty(),
            ));
        }
        let ghost padded = views(rt.split_line@);
        rt.split_line.push(s.dup());
        assert(views(rt.split_line@) =~= padded.push(s@));
        assert(views(rt.split_line@) =~= place(f, idx as int, s@));
    }
    true
}

/// The value of a string variable (`FS`, `OFS`, `RS` or `FILENAME`).
pub fn load_var_str(rt: &Runtime, var: usize) -> (r: Str)
    requires
        is_str_var(var),
    ensures
        var == FS ==> r@ == rt.vars.fs@,
        var == OFS ==> r@ == rt.vars.ofs@,
        var == RS ==> r@ == rt.vars.rs@,
        var == FILENAME ==> r@ == rt.vars.filename@,
{
    if var == FS {
        rt.vars.fs.dup()
    } else if var == OFS {
        rt.vars.ofs.dup()
    } else if var == RS {
        rt.vars.rs.dup()
    } else {
        rt.vars.filename.dup()
    }
}

/// Sets a string variable (`FS`, `OFS`, `RS` or `FILENAME`) to a copy of `s`.
pub fn store_var_str(rt: &mut Runtime, var: usize, s: &Str)
    requires
        old(rt).wf(),
        is_str_var(var),
    ensures
        final(rt).wf(),
        final(rt).vars.fs@ == (if var == FS { s@ } else { old(rt).vars.fs@ }),
        final(rt).vars.ofs@ == (if var == OFS { s@ } else { old(rt).vars.ofs@ }),
        final(rt).vars.rs@ == (if var == RS { s@ } else { old(rt).vars.rs@ }),
        final(rt).vars.filename@ == (if var == FILENAME { s@ } else { old(rt).vars.filename@ }),
        final(rt).line == old(rt).line,
        final(rt).split_line == old(rt).split_line,
        final(rt).maps == old(rt).maps,
        final(rt).vars.argc == old(rt).vars.argc,
        final(rt).vars.nr == old(rt).vars.nr,
        final(rt).vars.nf == old(rt).vars.nf,
        final(rt).vars.argv == old(rt).vars.argv,
{
    let v = s.dup();
    if var == FS {
        rt.vars.fs = v;
    } else if var == OFS {
        rt.vars.ofs = v;
    } else if var == RS {
        rt.vars.rs = v;
    } else {
        rt.vars.filename = v;
    }
}

/// The value of an integer variable (`ARGC`, `NR` or `NF`). Reading `NF` first
/// splits the record when its fields are not split yet; `None` when that split
/// needs a pattern that does not compile.
pub fn load_var_int(rt: &mut Runtime, var: usize) -> (r: Option<i64>)
    requires
        old(rt).wf(),
        is_int_var(var),
    ensures
        final(rt).wf(),
        var == ARGC ==> *final(rt) == *old(rt) && r == Some(old(rt).vars.argc),
        var == NR ==> *final(rt) == *old(rt) && r == Some(old(rt).vars.nr),
        var == NF ==> final(rt).realized_from(old(rt)) && r == (if old(rt).fields() is Some {
            Some(final(rt).vars.nf)
        } else {
            None
        }),
{
    if var == ARGC {
        Some(rt.vars.argc)
    } else if var == NR {
        Some(rt.vars.nr)
    } else {
        if realize(rt) {
            Some(rt.vars.nf)
        } else {
            None
        }
    }
}

/// Sets an integer variable (`ARGC`, `NR` or `NF`).
pub fn store_var_int(rt: &mut Runtime, var: usize, i: i64)
    requires
        old(rt).wf(),
        is_int_var(var),
    ensures
        final(rt).wf(),
        final(rt).vars.argc == (if var == ARGC { i } else { old(rt).vars.argc }),
        final(rt).vars.nr == (if var == NR { i } else { old(rt).vars.nr }),
        final(rt).vars.nf == (if var == NF { i } else { old(rt).vars.nf }),
        final(rt).line == old(rt).line,
        final(rt).split_line == old(rt).split_line,
        final(rt).maps == old(rt).maps,
        final(rt).vars.fs == old(rt).vars.fs,
        final(rt).vars.ofs == old(rt).vars.ofs,
        final(rt).vars.rs == old(rt).vars.rs,
        final(rt).vars.filename == old(rt).vars.filename,
        final(rt).vars.argv == old(rt).vars.argv,
{
    if var == ARGC {
        rt.vars.argc = i;
    } else if var == NR {
        rt.vars.nr = i;
    } else {
        rt.vars.nf = i;
    }
}

/// A new reference to the map `ARGV`.
pub fn load_var_intmap(rt: &mut Runtime, var: usize) -> (r: usize)
    requires
        old(rt).wf(),
        var == ARGV,
        old(rt).maps@[old(rt).vars.argv as int].refs < u64::MAX,
    ensures
        final(rt).wf(),
        r == old(rt).vars.argv,
        final(rt).maps@ == bump(old(rt).maps@, r as int),
        final(rt).vars == old(rt).vars,
        final(rt).line == old(rt).line,
        final(rt).split_line == old(rt).split_line,
        final(rt).regexes == old(rt).regexes,
{
    let h = rt.vars.argv;
    crate::maps::ref_map(&mut rt.maps, h);
    h
}

/// Makes `map` the value of `ARGV`: it gains a reference and the map `ARGV`
/// held before loses one.
pub fn store_var_intmap(rt: &mut Runtime, var: usize, map: usize)
    requires
        old(rt).wf(),
        var == ARGV,
        old(rt).maps.live(map as int),
        old(rt).maps.kind(map as int) == Some(MapKind::IntStr),
        old(rt).maps@[map as int].refs < u64::MAX,
    ensures
        final(rt).wf(),
        final(rt).vars.argv == map,
        final(rt).maps@ == release(bump(old(rt).maps@, map as int), old(rt).vars.argv as int),
        final(rt).line == old(rt).line,
        final(rt).split_line == old(rt).split_line,
        final(rt).regexes == old(rt).regexes,
        final(rt).vars.fs == old(rt).vars.fs,
        final(rt).vars.ofs == old(rt).vars.ofs,
        final(rt).vars.rs == old(rt).vars.rs,
        final(rt).vars.filename == old(rt).vars.filename,
        final(rt).vars.argc == old(rt).vars.argc,
        final(rt).vars.nr == old(rt).vars.nr,
        final(rt).vars.nf == old(rt).vars.nf,
{
    let prev = rt.vars.argv;
    crate::maps::ref_map(&mut rt.maps, map);
    crate::maps::drop_map(&mut rt.maps, prev);
    rt.vars.argv = map;
}

/// 1 when `pat` matches somewhere in `s`, else 0. A pattern is compiled on
/// its first use only; it must compile.
pub fn match_pat(rt: &mut Runtime, s: &Str, pat: &Str) -> (r: i64)
    requires
        old(rt).wf(),
        regex_compiles(pat@),
    ensures
        final(rt).wf(),
        r == (if regex_is_match(pat@, s@) { 1i64 } else { 0i64 }),
        final(rt).regexes.patterns() == (if old(rt).regexes.patterns().contains(pat@) {
            old(rt).regexes.patterns()
        } else {
            old(rt).regexes.patterns().push(pat@)
        }),
        final(rt).vars == old(rt).vars,
        final(rt).line == old(rt).line,
        final(rt).split_line == old(rt).split_line,
        final(rt).maps == old(rt).maps,
{
    match rt.regexes.is_match(pat, s) {
        Some(b) => if b { 1 } else { 0 },
        None => 0,
    }
}

/// As `match_pat`, for any pattern: `None` when `pat` does not compile.
pub fn try_match_pat(rt: &mut Runtime, s: &Str, pat: &Str) -> (r: Option<i64>)
    requires
        old(rt).wf(),
    ensures
        final(rt).wf(),
        r == (if regex_compiles(pat@) {
            Some(if regex_is_match(pat@, s@) { 1i64 } else { 0i64 })
        } else {
            None
        }),
        final(rt).regexes.patterns() == (if old(rt).regexes.patterns().contains(pat@)
            || !regex_compiles(pat@) {
            old(rt).regexes.patterns()
        } else {
            old(rt).regexes.patterns().push(pat@)
        }),
        final(rt).vars == old(rt).vars,
        final(rt).line == old(rt).line,
        final(rt).split_line == old(rt).split_line,
        final(rt).maps == old(rt).maps,
{
    match rt.regexes.is_match(pat, s) {
        None => None,
        Some(_) => {
            proof {
                let ps = rt.regexes.patterns();
                if !old(rt).regexes.patterns().contains(pat@) {
                    assert(ps[ps.len() - 1] == pat@);
                }
                assert(ps.contains(pat@));
            }
            Some(match_pat(rt, s, pat))
        },
    }
}

/// Splits `to_split` by `pat` and stores the pieces under the keys 1, 2, ...;
/// `None` when `pat` is a pattern that does not compile, or when there are too
/// many pieces to number.
fn split_into_int_keys(rt: &mut Runtime, to_split: &Str, into_arr: usize, pat: &Str) -> (r: Option<i64>)
    requires
        old(rt).wf(),
        old(rt).maps.live(into_arr as int),
        old(rt).maps.kind(into_arr as int) == Some(MapKind::IntStr),
    ensures
        final(rt).wf(),
        final(rt).vars == old(rt).vars,
        final(rt).line == old(rt).line,
        final(rt).split_line == old(rt).split_line,
        match split_spec(pat@, to_split@) {
            Some(toks) => if toks.len() < i64::MAX {
                &&& final(rt).maps.others_kept(&old(rt).maps, into_arr as int)
                &&& final(rt).maps.intstr(into_arr as int) == int_keyed(
                    old(rt).maps.intstr(into_arr as int),
                    toks,
                )
                &&& r == Some((final(rt).maps.intstr(into_arr as int).len() - old(
                    rt,
                ).maps.intstr(into_arr as int).len()) as i64)
            } else {
                r is None && final(rt).maps == old(rt).maps
            },
            None => r is None && final(rt).maps == old(rt).maps,
        },
{
    let toks = match split_fields(&mut rt.regexes, pat, to_split) {
        Some(v) => v,
        None => return None,
    };
    if toks.len() as u64 >= 9223372036854775807u64 {
        return None;
    }
    let ghost t = views(toks@);
    let ghost m0 = rt.maps;
    let ghost mid = *rt;
    let h = into_arr;
    let mut added: usize = 0;
    let mut i: usize = 0;
    proof {
        lemma_contents_finite(&rt.maps, h as int);
        assert(t.subrange(0, 0) =~= Seq::<Seq<u8>>::empty());
    }
    while i < toks.len()
        invariant
            t == views(toks@),
            t.len() < i64::MAX,
            i <= t.len(),
            added <= i,
            rt.maps.wf(),
            rt.maps.live(h as int),
            rt.maps.kind(h as int) == Some(MapKind::IntStr),
            rt.maps.others_kept(&m0, h as int),
            rt.maps.intstr(h as int) == int_keyed(m0.intstr(h as int), t.subrange(0, i as int)),
            rt.maps.intstr(h as int).dom().finite(),
            added == rt.maps.intstr(h as int).len() - m0.intstr(h as int).len(),
            rt.vars == mid.vars,
            rt.line == mid.line,
            rt.split_line == mid.split_line,
            rt.regexes == mid.regexes,
            m0.wf(),
            m0.live(rt.vars.argv as int),
            m0.kind(rt.vars.argv as int) == Some(MapKind::IntStr),
        decreases t.len() - i,
    {
        let key = (i + 1) as i64;
        let ghost before = rt.maps.intstr(h as int);
        let fresh = contains_intstr(&rt.maps, h, key) == 0;
        insert_intstr(&mut rt.maps, h, key, &toks[i]);
        proof {
            assert(t.subrange(0, i + 1).drop_last() =~= t.subrange(0, i as int));
            assert(t[i as int] == toks@[i as int]@);
            assert(rt.maps.intstr(h as int).dom() == before.dom().insert(key));
        }
        if fresh {
            added = added + 1;
        }
        i = i + 1;
    }
    proof {
        assert(t.subrange(0, t.len() as int) =~= t);
    }
    Some(added as i64)
}

/// As `split_into_int_keys`, under the keys "1", "2", ....
fn split_into_str_keys(rt: &mut Runtime, to_split: &Str, into_arr: usize, pat: &Str) -> (r: Option<i64>)
    requires
        old(rt).wf(),
        old(rt).maps.live(into_arr as int),
        old(rt).maps.kind(into_arr as int) == Some(MapKind::StrStr),
    ensures
        final(rt).wf(),
        final(rt).vars == old(rt).vars,
        final(rt).line == old(rt).line,
        final(rt).split_line == old(rt).split_line,
        match split_spec(pat@, to_split@) {
            Some(toks) => if toks.len() < i64::MAX {
                &&& final(rt).maps.others_kept(&old(rt).maps, into_arr as int)
                &&& final(rt).maps.strstr(into_arr as int) == str_keyed(
                    old(rt).maps.strstr(into_arr as int),
                    toks,
                )
                &&& r == Some((final(rt).maps.strstr(into_arr as int).len() - old(
                    rt,
                ).maps.strstr(into_arr as int).len()) as i64)
            } else {
                r is None && final(rt).maps == old(rt).maps
            },
            None => r is None && final(rt).maps == old(rt).maps,
        },
{
    let toks = match split_fields(&mut rt.regexes, pat, to_split) {
        Some(v) => v,
        None => return None,
    };
    if toks.len() as u64 >= 9223372036854775807u64 {
        return None;
    }
    let ghost t = views(toks@);
    let ghost m0 = rt.maps;
    let ghost mid = *rt;
    let h = into_arr;
    let mut added: usize = 0;
    let mut i: usize = 0;
    proof {
        lemma_contents_finite(&rt.maps, h as int);
        assert(t.subrange(0, 0) =~= Seq::<Seq<u8>>::empty());
    }
    while i < toks.len()
        invariant
            t == views(toks@),
            t.len() < i64::MAX,
            i <= t.len(),
            added <= i,
            rt.maps.wf(),
            rt.maps.live(h as int),
            rt.maps.kind(h as int) == Some(MapKind::StrStr),
            rt.maps.others_kept(&m0, h as int),
            rt.maps.strstr(h as int) == str_keyed(m0.strstr(h as int), t.subrange(0, i as int)),
            rt.maps.strstr(h as int).dom().finite(),
            added == rt.maps.strstr(h as int).len() - m0.strstr(h as int).len(),
            rt.vars == mid.vars,
            rt.line == mid.line,
            rt.split_line == mid.split_line,
            rt.regexes == mid.regexes,
            m0.wf(),
            m0.live(rt.vars.argv as int),
            m0.kind(rt.vars.argv as int) == Some(MapKind::IntStr),
        decreases t.len() - i,
    {
        let key = int_to_str((i + 1) as i64);
        let ghost before = rt.maps.strstr(h as int);
        let fresh = contains_strstr(&rt.maps, h, &key) == 0;
        insert_strstr(&mut rt.maps, h, &key, &toks[i]);
        proof {
            assert(t.subrange(0, i + 1).drop_last() =~= t.subrange(0, i as int));
            assert(t[i as int] == toks@[i as int]@);
            assert(rt.maps.strstr(h as int).dom() == before.dom().insert(key@));
        }
        if fresh {
            added = added + 1;
        }
        i = i + 1;
    }
    proof {
        assert(t.subrange(0, t.len() as int) =~= t);
    }
    Some(added as i64)
}

/// Splits `to_split` by `pat` as records are split into fields and stores the
/// pieces in the integer-keyed string map `into_arr` under the keys 1, 2, ...;
/// returns how many keys the map gained. The pattern must compile.
pub fn split_int(rt: &mut Runtime, to_split: &Str, into_arr: usize, pat: &Str) -> (r: i64)
    requires
        old(rt).wf(),
        old(rt).maps.live(into_arr as int),
        old(rt).maps.kind(into_arr as int) == Some(MapKind::IntStr),
        split_spec(pat@, to_split@) matches Some(toks) && toks.len() < i64::MAX,
    ensures
        final(rt).wf(),
        final(rt).vars == old(rt).vars,
        final(rt).line == old(rt).line,
        final(rt).split_line == old(rt).split_line,
        final(rt).maps.others_kept(&old(rt).maps, into_arr as int),
        split_spec(pat@, to_split@) matches Some(toks) && final(rt).maps.intstr(into_arr as int)
            == int_keyed(old(rt).maps.intstr(into_arr as int), toks),
        r == (final(rt).maps.intstr(into_arr as int).len() - old(rt).maps.intstr(
            into_arr as int,
        ).len()) as i64,
{
    match split_into_int_keys(rt, to_split, into_arr, pat) {
        Some(n) => n,
        None => 0,
    }
}

/// As `split_int`, for any pattern: `None`, with the map unchanged, when
/// `pat` does not compile or there are too many pieces to number.
pub fn try_split_int(rt: &mut Runtime, to_split: &Str, into_arr: usize, pat: &Str) -> (r: Option<i64>)
    requires
        old(rt).wf(),
        old(rt).maps.live(into_arr as int),
        old(rt).maps.kind(into_arr as int) == Some(MapKind::IntStr),
    ensures
        final(rt).wf(),
        final(rt).vars == old(rt).vars,
        final(rt).line == old(rt).line,
        final(rt).split_line == old(rt).split_line,
        match split_spec(pat@, to_split@) {
            Some(toks) => if toks.len() < i64::MAX {
                &&& final(rt).maps.others_kept(&old(rt).maps, into_arr as int)
                &&& final(rt).maps.intstr(into_arr as int) == int_keyed(
                    old(rt).maps.intstr(into_arr as int),
                    toks,
                )
                &&& r == Some((final(rt).maps.intstr(into_arr as int).len() - old(
                    rt,
                ).maps.intstr(into_arr as int).len()) as i64)
            } else {
                r is None && final(rt).maps == old(rt).maps
            },
            None => r is None && final(rt).maps == old(rt).maps,
        },
{
    let toks = match split_fields(&mut rt.regexes, pat, to_split) {
        Some(v) => v,
        None => return None,
    };
    if toks.len() as u64 >= 9223372036854775807u64 {
        return None;
    }
    Some(split_int(rt, to_split, into_arr, pat))
}

/// Splits `to_split` by `pat` as records are split into fields and stores the
/// pieces in the string-keyed string map `into_arr` under the keys "1", "2", ...;
/// returns how many keys the map gained. The pattern must compile.
pub fn split_str(rt: &mut Runtime, to_split: &Str, into_arr: usize, pat: &Str) -> (r: i64)
    requires
        old(rt).wf(),
        old(rt).maps.live(into_arr as int),
        old(rt).maps.kind(into_arr as int) == Some(MapKind::StrStr),
        split_spec(pat@, to_split@) matches Some(toks) && toks.len() < i64::MAX,
    ensures
        final(rt).wf(),
        final(rt).vars == old(rt).vars,
        final(rt).line == old(rt).line,
        final(rt).split_line == old(rt).split_line,
        final(rt).maps.others_kept(&old(rt).maps, into_arr as int),
        split_spec(pat@, to_split@) matches Some(toks) && final(rt).maps.strstr(into_arr as int)
            == str_keyed(old(rt).maps.strstr(into_arr as int), toks),
        r == (final(rt).maps.strstr(into_arr as int).len() - old(rt).maps.strstr(
            into_arr as int,
        ).len()) as i64,
{
    match split_into_str_keys(rt, to_split, into_arr, pat) {
        Some(n) => n,
        None => 0,
    }
}

/// As `split_str`, for any pattern: `None`, with the map unchanged, when
/// `pat` does not compile or there are too many pieces to number.
pub fn try_split_str(rt: &mut Runtime, to_split: &Str, into_arr: usize, pat: &Str) -> (r: Option<i64>)
    requires
        old(rt).wf(),
        old(rt).maps.live(into_arr as int),
        old(rt).maps.kind(into_arr as int) == Some(MapKind::StrStr),
    ensures
        final(rt).wf(),
        final(rt).vars == old(rt).vars,
        final(rt).line == old(rt).line,
        final(rt).split_line == old(rt).split_line,
        match split_spec(pat@, to_split@) {
            Some(toks) => if toks.len() < i64::MAX {
                &&& final(rt).maps.others_kept(&old(rt).maps, into_arr as int)
                &&& final(rt).maps.strstr(into_arr as int) == str_keyed(
                    old(rt).maps.strstr(into_arr as int),
                    toks,
                )
                &&& r == Some((final(rt).maps.strstr(into_arr as int).len() - old(
                    rt,
                ).maps.strstr(into_arr as int).len()) as i64)
            } else {
                r is None && final(rt).maps == old(rt).maps
            },
            None => r is None && final(rt).maps == old(rt).maps,
        },
{
    let toks = match split_fields(&mut rt.regexes, pat, to_split) {
        Some(v) => v,
        None => return None,
    };
    if toks.len() as u64 >= 9223372036854775807u64 {
        return None;
    }
    Some(split_str(rt, to_split, into_arr, pat))
}

/// Once the whole record is assigned, its fields are those of the new record
/// split by whatever `FS` holds when they are next read: `set_col` with column
/// 0 leaves `line` equal to the new record and no fields split, and `get_col`
/// and `load_var_int` of `NF` then realize exactly these fields.
pub proof fn lemma_assigned_record_resplits(rt: Runtime, s: Seq<u8>)
    requires
        rt.line@ == s,
        rt.split_line@.len() == 0,
    ensures
        rt.fields() == split_spec(rt.vars.fs@, s),
{
}

/// After a split the integer-keyed map holds exactly the keys it held before
/// and the keys 1 to k, one per piece: no key is removed.
pub proof fn lemma_int_keyed_keys(m: Map<i64, Seq<u8>>, toks: Seq<Seq<u8>>, i: i64)
    requires
        toks.len() < i64::MAX,
    ensures
        int_keyed(m, toks).contains_key(i) == (m.contains_key(i) || 1 <= i <= toks.len()),
    decreases toks.len(),
{
    if toks.len() > 0 {
        lemma_int_keyed_keys(m, toks.drop_last(), i);
    }
}

/// Splitting into an integer-keyed map and into a string-keyed map stores the
/// same pieces: reading back the keys 1 to k (or "1" to "k") in order gives the
/// pieces in order, whatever either map held before.
pub proof fn lemma_split_keys_agree(
    mi: Map<i64, Seq<u8>>,
    ms: Map<Seq<u8>, Seq<u8>>,
    toks: Seq<Seq<u8>>,
    j: int,
)
    requires
        toks.len() < i64::MAX,
        1 <= j <= toks.len(),
    ensures
        int_keyed(mi, toks).contains_key(j as i64),
        int_keyed(mi, toks)[j as i64] == toks[j - 1],
        str_keyed(ms, toks).contains_key(int_repr(j)),
        str_keyed(ms, toks)[int_repr(j)] == toks[j - 1],
    decreases toks.len(),
{
    let n = toks.len() as int;
    if j < n {
        lemma_split_keys_agree(mi, ms, toks.drop_last(), j);
        lemma_int_repr_injective(n as i64, j as i64);
        assert(toks.drop_last()[j - 1] == toks[j - 1]);
    }
}

} // verus!
