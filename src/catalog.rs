use vstd::prelude::*;

verus! {

/// The machine-level types of intrinsic parameters and results.
#[derive(PartialEq, Eq, Structural, Clone, Copy, Debug)]
pub enum MachineType {
    /// A pointer-sized integer; also the carrier of map handles and variable codes.
    Usize,
    /// The language's integer.
    Int,
    /// A 64-bit float.
    Float,
    /// A string returned by value, as one opaque wide word.
    StrValue,
    /// A pointer to a string that the caller keeps.
    StrRef,
    /// The opaque pointer to the runtime.
    Runtime,
    /// No result.
    Void,
}

/// Parameter types and result type of an intrinsic.
pub struct Signature {
    pub params: Vec<MachineType>,
    pub ret: MachineType,
}

impl Signature {
    pub fn new(params: &[MachineType], ret: MachineType) -> (r: Signature)
        ensures
            r.params@ == params@,
            r.ret == ret,
    {
        let mut v: Vec<MachineType> = Vec::new();
        let mut i: usize = 0;
        while i < params.len()
            invariant
                i <= params@.len(),
                v@ == params@.subrange(0, i as int),
            decreases params@.len() - i,
        {
            v.push(params[i]);
            i = i + 1;
        }
        Signature { params: v, ret }
    }

    pub fn copy(&self) -> (r: Signature)
        ensures
            r.params@ == self.params@,
            r.ret == self.ret,
    {
        Signature::new(self.params.as_slice(), self.ret)
    }
}

/// Where a catalog entry stands in the module being generated: only its
/// signature is known, or it has been declared and has a function handle.
pub enum Declaration<D> {
    Pending(Signature),
    Declared(D),
}

pub struct Intrinsic<D> {
    pub name: &'static str,
    pub state: Declaration<D>,
}

/// Positions of catalog entries by name.
#[verifier::external_body]
pub struct NameIndex {
    inner: hashbrown::HashMap<&'static str, usize>,
}

/// What a name index holds: each name with its position.
pub uninterp spec fn index_contents(t: NameIndex) -> Map<Seq<char>, usize>;

/// Relies on `hashbrown::HashMap::new`: a map with no entries.
#[verifier::external_body]
fn index_new() -> (r: NameIndex)
    ensures
        index_contents(r).dom().len() == 0 && index_contents(r).dom().finite(),
{
    NameIndex { inner: hashbrown::HashMap::new() }
}

/// Relies on `hashbrown::HashMap::insert`: maps the name to `pos` and returns
/// the position it held before, if any. Names compare by their characters.
#[verifier::external_body]
fn index_insert(t: &mut NameIndex, name: &'static str, pos: usize) -> (r: Option<usize>)
    ensures
        index_contents(*final(t)) == index_contents(*old(t)).insert(name@, pos),
        r == (if index_contents(*old(t)).contains_key(name@) {
            Some(index_contents(*old(t))[name@])
        } else {
            None
        }),
{
    t.inner.insert(name, pos)
}

/// Relies on `hashbrown::HashMap::get`: the position held under the name, if any.
#[verifier::external_body]
fn index_get(t: &NameIndex, name: &str) -> (r: Option<usize>)
    ensures
        r == (if index_contents(*t).contains_key(name@) {
            Some(index_contents(*t)[name@])
        } else {
            None
        }),
{
    t.inner.get(name).copied()
}

/// The table of intrinsics by name. Each entry starts with its signature and is
/// declared in the generated module on first use, once.
pub struct IntrinsicMap<D> {
    index: NameIndex,
    entries: Vec<Intrinsic<D>>,
}

impl<D: Copy> IntrinsicMap<D> {
    pub closed spec fn wf(&self) -> bool {
        &&& forall|i: int|
            0 <= i < self.entries@.len() ==> #[trigger] index_contents(self.index).contains_key(
                self.entries@[i].name@,
            ) && index_contents(self.index)[self.entries@[i].name@] == i
        &&& forall|k: Seq<char>|
            #[trigger] index_contents(self.index).contains_key(k) ==> index_contents(self.index)[k]
                < self.entries@.len() && self.entries@[index_contents(self.index)[k] as int].name@
                == k
    }

    /// The names registered so far, in order of registration.
    pub closed spec fn names(&self) -> Seq<Seq<char>> {
        self.entries@.map_values(|e: Intrinsic<D>| e.name@)
    }

    /// Whether `name` is registered.
    pub open spec fn has(&self, name: Seq<char>) -> bool {
        self.names().contains(name)
    }

    /// The entry registered under `name`.
    pub closed spec fn entry(&self, name: Seq<char>) -> Intrinsic<D> {
        self.entries@[index_contents(self.index)[name] as int]
    }

    proof fn lemma_lookup(&self, name: Seq<char>)
        requires
            self.wf(),
        ensures
            self.has(name) == index_contents(self.index).contains_key(name),
            self.has(name) ==> self.names()[index_contents(self.index)[name] as int] == name,
    {
        if self.has(name) {
            let i = choose|i: int| 0 <= i < self.names().len() && self.names()[i] == name;
            assert(self.entries@[i].name@ == name);
        }
        if index_contents(self.index).contains_key(name) {
            let i = index_contents(self.index)[name] as int;
            assert(self.names()[i] == name);
        }
    }

    pub fn new() -> (r: IntrinsicMap<D>)
        ensures
            r.wf(),
            r.names() == Seq::<Seq<char>>::empty(),
    {
        let r = IntrinsicMap { index: index_new(), entries: Vec::new() };
        assert(r.names() =~= Seq::<Seq<char>>::empty());
        r
    }

    /// Whether `name` is registered.
    pub fn contains(&self, name: &str) -> (r: bool)
        requires
            self.wf(),
        ensures
            r == self.has(name@),
    {
        proof {
            self.lemma_lookup(name@);
        }
        index_get(&self.index, name).is_some()
    }

    /// Adds `name` with its signature, not yet declared. A name is registered
    /// once: registering it again is a mistake in building the catalog.
    pub fn register(&mut self, name: &'static str, sig: Signature)
        requires
            old(self).wf(),
            !old(self).has(name@),
        ensures
            final(self).wf(),
            final(self).names() == old(self).names().push(name@),
            final(self).entry(name@).state == Declaration::<D>::Pending(sig),
            forall|n: Seq<char>|
                n != name@ && old(self).has(n) ==> #[trigger] final(self).entry(n) == old(
                    self,
                ).entry(n),
    {
        proof {
            self.lemma_lookup(name@);
        }
        let pos = self.entries.len();
        let ghost old_index = self.index;
        index_insert(&mut self.index, name, pos);
        self.entries.push(Intrinsic { name, state: Declaration::Pending(sig) });
        proof {
            assert(self.names() =~= old(self).names().push(name@));
            assert forall|i: int| 0 <= i < self.entries@.len() implies #[trigger] index_contents(
                self.index,
            ).contains_key(self.entries@[i].name@) && index_contents(self.index)[self.entries@[i].name@]
                == i by {
                if i < pos {
                    assert(self.entries@[i] == old(self).entries@[i]);
                    assert(index_contents(old_index).contains_key(old(self).entries@[i].name@));
                }
            }
            assert forall|n: Seq<char>|
                n != name@ && old(self).has(n) implies #[trigger] self.entry(n) == old(self).entry(
                n,
            ) by {
                old(self).lemma_lookup(n);
            }
        }
    }

    /// What code generation needs for `name`: the function handle when it is
    /// declared already, else its signature; `None` when it is not registered.
    pub fn get(&self, name: &str) -> (r: Option<Declaration<D>>)
        requires
            self.wf(),
        ensures
            match r {
                None => !self.has(name@),
                Some(Declaration::Declared(d)) => self.has(name@) && self.entry(name@).state
                    == Declaration::Declared(d),
                Some(Declaration::Pending(sig)) => self.has(name@) && match self.entry(name@).state {
                    Declaration::Pending(s) => sig.params@ == s.params@ && sig.ret == s.ret,
                    Declaration::Declared(_) => false,
                },
            },
    {
        proof {
            self.lemma_lookup(name@);
        }
        match index_get(&self.index, name) {
            None => None,
            Some(i) => match &self.entries[i].state {
                Declaration::Declared(d) => Some(Declaration::Declared(*d)),
                Declaration::Pending(sig) => Some(Declaration::Pending(sig.copy())),
            },
        }
    }

    /// Records that `name` was declared with handle `d`. The change happens
    /// once: an entry declared already keeps its first handle. False when
    /// `name` is not registered.
    pub fn declare(&mut self, name: &str, d: D) -> (found: bool)
        requires
            old(self).wf(),
        ensures
            final(self).wf(),
            found == old(self).has(name@),
            final(self).names() == old(self).names(),
            found ==> final(self).entry(name@).state == match old(self).entry(name@).state {
                Declaration::Pending(_) => Declaration::Declared(d),
                Declaration::Declared(e) => Declaration::<D>::Declared(e),
            },
            forall|n: Seq<char>|
                n != name@ && old(self).has(n) ==> #[trigger] final(self).entry(n) == old(
                    self,
                ).entry(n),
    {
        proof {
            self.lemma_lookup(name@);
        }
        match index_get(&self.index, name) {
            None => false,
            Some(i) => {
                let pending = match &self.entries[i].state {
                    Declaration::Pending(_) => true,
                    Declaration::Declared(_) => false,
                };
                if pending {
                    let n = self.entries[i].name;
                    self.entries.set(i, Intrinsic { name: n, state: Declaration::Declared(d) });
                }
                proof {
                    assert(self.names() =~= old(self).names());
                    assert forall|n: Seq<char>|
                        n != name@ && old(self).has(n) implies #[trigger] self.entry(n) == old(
                        self,
                    ).entry(n) by {
                        old(self).lemma_lookup(n);
                    }
                }
                true
            },
        }
    }
}

/// Every intrinsic: its name, parameter types and result type.
pub open spec fn catalog() -> Seq<(Seq<char>, Seq<MachineType>, MachineType)> {
    seq![
        ("ref_str"@, seq![MachineType::StrRef], MachineType::Void),
        ("drop_str"@, seq![MachineType::StrRef], MachineType::Void),
        ("ref_map"@, seq![MachineType::Usize], MachineType::Void),
        ("drop_map"@, seq![MachineType::Usize], MachineType::Void),
        ("int_to_str"@, seq![MachineType::Int], MachineType::StrValue),
        ("float_to_str"@, seq![MachineType::Float], MachineType::StrValue),
        ("str_to_int"@, seq![MachineType::StrRef], MachineType::Int),
        ("str_to_float"@, seq![MachineType::StrRef], MachineType::Float),
        ("str_len"@, seq![MachineType::StrRef], MachineType::Usize),
        ("concat"@, seq![MachineType::StrRef, MachineType::StrRef], MachineType::StrValue),
        ("match_pat"@, seq![MachineType::Runtime, MachineType::StrRef, MachineType::StrRef], MachineType::Int),
        ("get_col"@, seq![MachineType::Runtime, MachineType::Int], MachineType::StrValue),
        ("set_col"@, seq![MachineType::Runtime, MachineType::Int, MachineType::StrRef], MachineType::Void),
        ("split_int"@, seq![MachineType::Runtime, MachineType::StrRef, MachineType::Usize, MachineType::StrRef], MachineType::Int),
        ("split_str"@, seq![MachineType::Runtime, MachineType::StrRef, MachineType::Usize, MachineType::StrRef], MachineType::Int),
        ("print_stdout"@, seq![MachineType::Runtime, MachineType::StrRef], MachineType::Void),
        ("print"@, seq![MachineType::Runtime, MachineType::StrRef, MachineType::StrRef, MachineType::Int], MachineType::Void),
        ("read_err"@, seq![MachineType::Runtime, MachineType::StrRef], MachineType::Int),
        ("read_err_stdin"@, seq![MachineType::Runtime], MachineType::Int),
        ("next_line"@, seq![MachineType::Runtime, MachineType::StrRef], MachineType::StrValue),
        ("next_line_stdin"@, seq![MachineType::Runtime], MachineType::StrValue),
        ("load_var_str"@, seq![MachineType::Runtime, MachineType::Usize], MachineType::StrValue),
        ("store_var_str"@, seq![MachineType::Runtime, MachineType::Usize, MachineType::StrRef], MachineType::Void),
        ("load_var_int"@, seq![MachineType::Runtime, MachineType::Usize], MachineType::Int),
        ("store_var_int"@, seq![MachineType::Runtime, MachineType::Usize, MachineType::Int], MachineType::Void),
        ("load_var_intmap"@, seq![MachineType::Runtime, MachineType::Usize], MachineType::Usize),
        ("store_var_intmap"@, seq![MachineType::Runtime, MachineType::Usize, MachineType::Usize], MachineType::Void),
        ("str_lt"@, seq![MachineType::StrRef, MachineType::StrRef], MachineType::Int),
        ("str_gt"@, seq![MachineType::StrRef, MachineType::StrRef], MachineType::Int),
        ("str_lte"@, seq![MachineType::StrRef, MachineType::StrRef], MachineType::Int),
        ("str_gte"@, seq![MachineType::StrRef, MachineType::StrRef], MachineType::Int),
        ("str_eq"@, seq![MachineType::StrRef, MachineType::StrRef], MachineType::Int),
        ("alloc_intint"@, Seq::empty(), MachineType::Usize),
        ("len_intint"@, seq![MachineType::Usize], MachineType::Int),
        ("lookup_intint"@, seq![MachineType::Usize, MachineType::Int], MachineType::Int),
        ("contains_intint"@, seq![MachineType::Usize, MachineType::Int], MachineType::Int),
        ("insert_intint"@, seq![MachineType::Usize, MachineType::Int, MachineType::Int], MachineType::Void),
        ("delete_intint"@, seq![MachineType::Usize, MachineType::Int], MachineType::Void),
        ("alloc_intfloat"@, Seq::empty(), MachineType::Usize),
        ("len_intfloat"@, seq![MachineType::Usize], MachineType::Int),
        ("lookup_intfloat"@, seq![MachineType::Usize, MachineType::Int], MachineType::Float),
        ("contains_intfloat"@, seq![MachineType::Usize, MachineType::Int], MachineType::Int),
        ("insert_intfloat"@, seq![MachineType::Usize, MachineType::Int, MachineType::Float], MachineType::Void),
        ("delete_intfloat"@, seq![MachineType::Usize, MachineType::Int], MachineType::Void),
        ("alloc_intstr"@, Seq::empty(), MachineType::Usize),
        ("len_intstr"@, seq![MachineType::Usize], MachineType::Int),
        ("lookup_intstr"@, seq![MachineType::Usize, MachineType::Int], MachineType::StrValue),
        ("contains_intstr"@, seq![MachineType::Usize, MachineType::Int], MachineType::Int),
        ("insert_intstr"@, seq![MachineType::Usize, MachineType::Int, MachineType::StrRef], MachineType::Void),
        ("delete_intstr"@, seq![MachineType::Usize, MachineType::Int], MachineType::Void),
        ("alloc_strint"@, Seq::empty(), MachineType::Usize),
        ("len_strint"@, seq![MachineType::Usize], MachineType::Int),
        ("lookup_strint"@, seq![MachineType::Usize, MachineType::StrRef], MachineType::Int),
        ("contains_strint"@, seq![MachineType::Usize, MachineType::StrRef], MachineType::Int),
        ("insert_strint"@, seq![MachineType::Usize, MachineType::StrRef, MachineType::Int], MachineType::Void),
        ("delete_strint"@, seq![MachineType::Usize, MachineType::StrRef], MachineType::Void),
        ("alloc_strfloat"@, Seq::empty(), MachineType::Usize),
        ("len_strfloat"@, seq![MachineType::Usize], MachineType::Int),
        ("lookup_strfloat"@, seq![MachineType::Usize, MachineType::StrRef], MachineType::Float),
        ("contains_strfloat"@, seq![MachineType::Usize, MachineType::StrRef], MachineType::Int),
        ("insert_strfloat"@, seq![MachineType::Usize, MachineType::StrRef, MachineType::Float], MachineType::Void),
        ("delete_strfloat"@, seq![MachineType::Usize, MachineType::StrRef], MachineType::Void),
        ("alloc_strstr"@, Seq::empty(), MachineType::Usize),
        ("len_strstr"@, seq![MachineType::Usize], MachineType::Int),
        ("lookup_strstr"@, seq![MachineType::Usize, MachineType::StrRef], MachineType::StrValue),
        ("contains_strstr"@, seq![MachineType::Usize, MachineType::StrRef], MachineType::Int),
        ("insert_strstr"@, seq![MachineType::Usize, MachineType::StrRef, MachineType::StrRef], MachineType::Void),
        ("delete_strstr"@, seq![MachineType::Usize, MachineType::StrRef], MachineType::Void)
    ]
}

/// The names of `catalog()`, in order.
pub open spec fn catalog_names() -> Seq<Seq<char>> {
    catalog().map_values(|e: (Seq<char>, Seq<MachineType>, MachineType)| e.0)
}

/// The position of a name in `catalog()`, or -1.
pub open spec fn catalog_pos(s: Seq<char>) -> int {
    if s.len() == 7 && s[0] == 'r' && s[1] == 'e' && s[2] == 'f' && s[3] == '_' && s[4] == 's' && s[5] == 't' && s[6] == 'r' {
        0
    } else if s.len() == 8 && s[0] == 'd' && s[1] == 'r' && s[2] == 'o' && s[3] == 'p' && s[4] == '_' && s[5] == 's' && s[6] == 't' && s[7] == 'r' {
        1
    } else if s.len() == 7 && s[0] == 'r' && s[1] == 'e' && s[2] == 'f' && s[3] == '_' && s[4] == 'm' && s[5] == 'a' && s[6] == 'p' {
        2
    } else if s.len() == 8 && s[0] == 'd' && s[1] == 'r' && s[2] == 'o' && s[3] == 'p' && s[4] == '_' && s[5] == 'm' && s[6] == 'a' && s[7] == 'p' {
        3
    } else if s.len() == 10 && s[0] == 'i' && s[1] == 'n' && s[2] == 't' && s[3] == '_' && s[4] == 't' && s[5] == 'o' && s[6] == '_' && s[7] == 's' && s[8] == 't' && s[9] == 'r' {
        4
    } else if s.len() == 12 && s[0] == 'f' && s[1] == 'l' && s[2] == 'o' && s[3] == 'a' && s[4] == 't' && s[5] == '_' && s[6] == 't' && s[7] == 'o' && s[8] == '_' && s[9] == 's' && s[10] == 't' && s[11] == 'r' {
        5
    } else if s.len() == 10 && s[0] == 's' && s[1] == 't' && s[2] == 'r' && s[3] == '_' && s[4] == 't' && s[5] == 'o' && s[6] == '_' && s[7] == 'i' && s[8] == 'n' && s[9] == 't' {
        6
    } else if s.len() == 12 && s[0] == 's' && s[1] == 't' && s[2] == 'r' && s[3] == '_' && s[4] == 't' && s[5] == 'o' && s[6] == '_' && s[7] == 'f' && s[8] == 'l' && s[9] == 'o' && s[10] == 'a' && s[11] == 't' {
        7
    } else if s.len() == 7 && s[0] == 's' && s[1] == 't' && s[2] == 'r' && s[3] == '_' && s[4] == 'l' && s[5] == 'e' && s[6] == 'n' {
        8
    } else if s.len() == 6 && s[0] == 'c' && s[1] == 'o' && s[2] == 'n' && s[3] == 'c' && s[4] == 'a' && s[5] == 't' {
        9
    } else if s.len() == 9 && s[0] == 'm' && s[1] == 'a' && s[2] == 't' && s[3] == 'c' && s[4] == 'h' && s[5] == '_' && s[6] == 'p' && s[7] == 'a' && s[8] == 't' {
        10
    } else if s.len() == 7 && s[0] == 'g' && s[1] == 'e' && s[2] == 't' && s[3] == '_' && s[4] == 'c' && s[5] == 'o' && s[6] == 'l' {
        11
    } else if s.len() == 7 && s[0] == 's' && s[1] == 'e' && s[2] == 't' && s[3] == '_' && s[4] == 'c' && s[5] == 'o' && s[6] == 'l' {
        12
    } else if s.len() == 9 && s[0] == 's' && s[1] == 'p' && s[2] == 'l' && s[3] == 'i' && s[4] == 't' && s[5] == '_' && s[6] == 'i' && s[7] == 'n' && s[8] == 't' {
        13
    } else if s.len() == 9 && s[0] == 's' && s[1] == 'p' && s[2] == 'l' && s[3] == 'i' && s[4] == 't' && s[5] == '_' && s[6] == 's' && s[7] == 't' && s[8] == 'r' {
        14
    } else if s.len() == 12 && s[0] == 'p' && s[1] == 'r' && s[2] == 'i' && s[3] == 'n' && s[4] == 't' && s[5] == '_' && s[6] == 's' && s[7] == 't' && s[8] == 'd' && s[9] == 'o' && s[10] == 'u' && s[11] == 't' {
        15
    } else if s.len() == 5 && s[0] == 'p' && s[1] == 'r' && s[2] == 'i' && s[3] == 'n' && s[4] == 't' {
        16
    } else if s.len() == 8 && s[0] == 'r' && s[1] == 'e' && s[2] == 'a' && s[3] == 'd' && s[4] == '_' && s[5] == 'e' && s[6] == 'r' && s[7] == 'r' {
        17
    } else if s.len() == 14 && s[0] == 'r' && s[1] == 'e' && s[2] == 'a' && s[3] == 'd' && s[4] == '_' && s[5] == 'e' && s[6] == 'r' && s[7] == 'r' && s[8] == '_' && s[9] == 's' && s[10] == 't' && s[11] == 'd' && s[12] == 'i' && s[13] == 'n' {
        18
    } else if s.len() == 9 && s[0] == 'n' && s[1] == 'e' && s[2] == 'x' && s[3] == 't' && s[4] == '_' && s[5] == 'l' && s[6] == 'i' && s[7] == 'n' && s[8] == 'e' {
        19
    } else if s.len() == 15 && s[0] == 'n' && s[1] == 'e' && s[2] == 'x' && s[3] == 't' && s[4] == '_' && s[5] == 'l' && s[6] == 'i' && s[7] == 'n' && s[8] == 'e' && s[9] == '_' && s[10] == 's' && s[11] == 't' && s[12] == 'd' && s[13] == 'i' && s[14] == 'n' {
        20
    } else if s.len() == 12 && s[0] == 'l' && s[1] == 'o' && s[2] == 'a' && s[3] == 'd' && s[4] == '_' && s[5] == 'v' && s[6] == 'a' && s[7] == 'r' && s[8] == '_' && s[9] == 's' && s[10] == 't' && s[11] == 'r' {
        21
    } else if s.len() == 13 && s[0] == 's' && s[1] == 't' && s[2] == 'o' && s[3] == 'r' && s[4] == 'e' && s[5] == '_' && s[6] == 'v' && s[7] == 'a' && s[8] == 'r' && s[9] == '_' && s[10] == 's' && s[11] == 't' && s[12] == 'r' {
        22
    } else if s.len() == 12 && s[0] == 'l' && s[1] == 'o' && s[2] == 'a' && s[3] == 'd' && s[4] == '_' && s[5] == 'v' && s[6] == 'a' && s[7] == 'r' && s[8] == '_' && s[9] == 'i' && s[10] == 'n' && s[11] == 't' {
        23
    } else if s.len() == 13 && s[0] == 's' && s[1] == 't' && s[2] == 'o' && s[3] == 'r' && s[4] == 'e' && s[5] == '_' && s[6] == 'v' && s[7] == 'a' && s[8] == 'r' && s[9] == '_' && s[10] == 'i' && s[11] == 'n' && s[12] == 't' {
        24
    } else if s.len() == 15 && s[0] == 'l' && s[1] == 'o' && s[2] == 'a' && s[3] == 'd' && s[4] == '_' && s[5] == 'v' && s[6] == 'a' && s[7] == 'r' && s[8] == '_' && s[9] == 'i' && s[10] == 'n' && s[11] == 't' && s[12] == 'm' && s[13] == 'a' && s[14] == 'p' {
        25
    } else if s.len() == 16 && s[0] == 's' && s[1] == 't' && s[2] == 'o' && s[3] == 'r' && s[4] == 'e' && s[5] == '_' && s[6] == 'v' && s[7] == 'a' && s[8] == 'r' && s[9] == '_' && s[10] == 'i' && s[11] == 'n' && s[12] == 't' && s[13] == 'm' && s[14] == 'a' && s[15] == 'p' {
        26
    } else if s.len() == 6 && s[0] == 's' && s[1] == 't' && s[2] == 'r' && s[3] == '_' && s[4] == 'l' && s[5] == 't' {
        27
    } else if s.len() == 6 && s[0] == 's' && s[1] == 't' && s[2] == 'r' && s[3] == '_' && s[4] == 'g' && s[5] == 't' {
        28
    } else if s.len() == 7 && s[0] == 's' && s[1] == 't' && s[2] == 'r' && s[3] == '_' && s[4] == 'l' && s[5] == 't' && s[6] == 'e' {
        29
    } else if s.len() == 7 && s[0] == 's' && s[1] == 't' && s[2] == 'r' && s[3] == '_' && s[4] == 'g' && s[5] == 't' && s[6] == 'e' {
        30
    } else if s.len() == 6 && s[0] == 's' && s[1] == 't' && s[2] == 'r' && s[3] == '_' && s[4] == 'e' && s[5] == 'q' {
        31
    } else if s.len() == 12 && s[0] == 'a' && s[1] == 'l' && s[2] == 'l' && s[3] == 'o' && s[4] == 'c' && s[5] == '_' && s[6] == 'i' && s[7] == 'n' && s[8] == 't' && s[9] == 'i' && s[10] == 'n' && s[11] == 't' {
        32
    } else if s.len() == 10 && s[0] == 'l' && s[1] == 'e' && s[2] == 'n' && s[3] == '_' && s[4] == 'i' && s[5] == 'n' && s[6] == 't' && s[7] == 'i' && s[8] == 'n' && s[9] == 't' {
        33
    } else if s.len() == 13 && s[0] == 'l' && s[1] == 'o' && s[2] == 'o' && s[3] == 'k' && s[4] == 'u' && s[5] == 'p' && s[6] == '_' && s[7] == 'i' && s[8] == 'n' && s[9] == 't' && s[10] == 'i' && s[11] == 'n' && s[12] == 't' {
        34
    } else if s.len() == 15 && s[0] == 'c' && s[1] == 'o' && s[2] == 'n' && s[3] == 't' && s[4] == 'a' && s[5] == 'i' && s[6] == 'n' && s[7] == 's' && s[8] == '_' && s[9] == 'i' && s[10] == 'n' && s[11] == 't' && s[12] == 'i' && s[13] == 'n' && s[14] == 't' {
        35
    } else if s.len() == 13 && s[0] == 'i' && s[1] == 'n' && s[2] == 's' && s[3] == 'e' && s[4] == 'r' && s[5] == 't' && s[6] == '_' && s[7] == 'i' && s[8] == 'n' && s[9] == 't' && s[10] == 'i' && s[11] == 'n' && s[12] == 't' {
        36
    } else if s.len() == 13 && s[0] == 'd' && s[1] == 'e' && s[2] == 'l' && s[3] == 'e' && s[4] == 't' && s[5] == 'e' && s[6] == '_' && s[7] == 'i' && s[8] == 'n' && s[9] == 't' && s[10] == 'i' && s[11] == 'n' && s[12] == 't' {
        37
    } else if s.len() == 14 && s[0] == 'a' && s[1] == 'l' && s[2] == 'l' && s[3] == 'o' && s[4] == 'c' && s[5] == '_' && s[6] == 'i' && s[7] == 'n' && s[8] == 't' && s[9] == 'f' && s[10] == 'l' && s[11] == 'o' && s[12] == 'a' && s[13] == 't' {
        38
    } else if s.len() == 12 && s[0] == 'l' && s[1] == 'e' && s[2] == 'n' && s[3] == '_' && s[4] == 'i' && s[5] == 'n' && s[6] == 't' && s[7] == 'f' && s[8] == 'l' && s[9] == 'o' && s[10] == 'a' && s[11] == 't' {
        39
    } else if s.len() == 15 && s[0] == 'l' && s[1] == 'o' && s[2] == 'o' && s[3] == 'k' && s[4] == 'u' && s[5] == 'p' && s[6] == '_' && s[7] == 'i' && s[8] == 'n' && s[9] == 't' && s[10] == 'f' && s[11] == 'l' && s[12] == 'o' && s[13] == 'a' && s[14] == 't' {
        40
    } else if s.len() == 17 && s[0] == 'c' && s[1] == 'o' && s[2] == 'n' && s[3] == 't' && s[4] == 'a' && s[5] == 'i' && s[6] == 'n' && s[7] == 's' && s[8] == '_' && s[9] == 'i' && s[10] == 'n' && s[11] == 't' && s[12] == 'f' && s[13] == 'l' && s[14] == 'o' && s[15] == 'a' && s[16] == 't' {
        41
    } else if s.len() == 15 && s[0] == 'i' && s[1] == 'n' && s[2] == 's' && s[3] == 'e' && s[4] == 'r' && s[5] == 't' && s[6] == '_' && s[7] == 'i' && s[8] == 'n' && s[9] == 't' && s[10] == 'f' && s[11] == 'l' && s[12] == 'o' && s[13] == 'a' && s[14] == 't' {
        42
    } else if s.len() == 15 && s[0] == 'd' && s[1] == 'e' && s[2] == 'l' && s[3] == 'e' && s[4] == 't' && s[5] == 'e' && s[6] == '_' && s[7] == 'i' && s[8] == 'n' && s[9] == 't' && s[10] == 'f' && s[11] == 'l' && s[12] == 'o' && s[13] == 'a' && s[14] == 't' {
        43
    } else if s.len() == 12 && s[0] == 'a' && s[1] == 'l' && s[2] == 'l' && s[3] == 'o' && s[4] == 'c' && s[5] == '_' && s[6] == 'i' && s[7] == 'n' && s[8] == 't' && s[9] == 's' && s[10] == 't' && s[11] == 'r' {
        44
    } else if s.len() == 10 && s[0] == 'l' && s[1] == 'e' && s[2] == 'n' && s[3] == '_' && s[4] == 'i' && s[5] == 'n' && s[6] == 't' && s[7] == 's' && s[8] == 't' && s[9] == 'r' {
        45
    } else if s.len() == 13 && s[0] == 'l' && s[1] == 'o' && s[2] == 'o' && s[3] == 'k' && s[4] == 'u' && s[5] == 'p' && s[6] == '_' && s[7] == 'i' && s[8] == 'n' && s[9] == 't' && s[10] == 's' && s[11] == 't' && s[12] == 'r' {
        46
    } else if s.len() == 15 && s[0] == 'c' && s[1] == 'o' && s[2] == 'n' && s[3] == 't' && s[4] == 'a' && s[5] == 'i' && s[6] == 'n' && s[7] == 's' && s[8] == '_' && s[9] == 'i' && s[10] == 'n' && s[11] == 't' && s[12] == 's' && s[13] == 't' && s[14] == 'r' {
        47
    } else if s.len() == 13 && s[0] == 'i' && s[1] == 'n' && s[2] == 's' && s[3] == 'e' && s[4] == 'r' && s[5] == 't' && s[6] == '_' && s[7] == 'i' && s[8] == 'n' && s[9] == 't' && s[10] == 's' && s[11] == 't' && s[12] == 'r' {
        48
    } else if s.len() == 13 && s[0] == 'd' && s[1] == 'e' && s[2] == 'l' && s[3] == 'e' && s[4] == 't' && s[5] == 'e' && s[6] == '_' && s[7] == 'i' && s[8] == 'n' && s[9] == 't' && s[10] == 's' && s[11] == 't' && s[12] == 'r' {
        49
    } else if s.len() == 12 && s[0] == 'a' && s[1] == 'l' && s[2] == 'l' && s[3] == 'o' && s[4] == 'c' && s[5] == '_' && s[6] == 's' && s[7] == 't' && s[8] == 'r' && s[9] == 'i' && s[10] == 'n' && s[11] == 't' {
        50
    } else if s.len() == 10 && s[0] == 'l' && s[1] == 'e' && s[2] == 'n' && s[3] == '_' && s[4] == 's' && s[5] == 't' && s[6] == 'r' && s[7] == 'i' && s[8] == 'n' && s[9] == 't' {
        51
    } else if s.len() == 13 && s[0] == 'l' && s[1] == 'o' && s[2] == 'o' && s[3] == 'k' && s[4] == 'u' && s[5] == 'p' && s[6] == '_' && s[7] == 's' && s[8] == 't' && s[9] == 'r' && s[10] == 'i' && s[11] == 'n' && s[12] == 't' {
        52
    } else if s.len() == 15 && s[0] == 'c' && s[1] == 'o' && s[2] == 'n' && s[3] == 't' && s[4] == 'a' && s[5] == 'i' && s[6] == 'n' && s[7] == 's' && s[8] == '_' && s[9] == 's' && s[10] == 't' && s[11] == 'r' && s[12] == 'i' && s[13] == 'n' && s[14] == 't' {
        53
    } else if s.len() == 13 && s[0] == 'i' && s[1] == 'n' && s[2] == 's' && s[3] == 'e' && s[4] == 'r' && s[5] == 't' && s[6] == '_' && s[7] == 's' && s[8] == 't' && s[9] == 'r' && s[10] == 'i' && s[11] == 'n' && s[12] == 't' {
        54
    } else if s.len() == 13 && s[0] == 'd' && s[1] == 'e' && s[2] == 'l' && s[3] == 'e' && s[4] == 't' && s[5] == 'e' && s[6] == '_' && s[7] == 's' && s[8] == 't' && s[9] == 'r' && s[10] == 'i' && s[11] == 'n' && s[12] == 't' {
        55
    } else if s.len() == 14 && s[0] == 'a' && s[1] == 'l' && s[2] == 'l' && s[3] == 'o' && s[4] == 'c' && s[5] == '_' && s[6] == 's' && s[7] == 't' && s[8] == 'r' && s[9] == 'f' && s[10] == 'l' && s[11] == 'o' && s[12] == 'a' && s[13] == 't' {
        56
    } else if s.len() == 12 && s[0] == 'l' && s[1] == 'e' && s[2] == 'n' && s[3] == '_' && s[4] == 's' && s[5] == 't' && s[6] == 'r' && s[7] == 'f' && s[8] == 'l' && s[9] == 'o' && s[10] == 'a' && s[11] == 't' {
        57
    } else if s.len() == 15 && s[0] == 'l' && s[1] == 'o' && s[2] == 'o' && s[3] == 'k' && s[4] == 'u' && s[5] == 'p' && s[6] == '_' && s[7] == 's' && s[8] == 't' && s[9] == 'r' && s[10] == 'f' && s[11] == 'l' && s[12] == 'o' && s[13] == 'a' && s[14] == 't' {
        58
    } else if s.len() == 17 && s[0] == 'c' && s[1] == 'o' && s[2] == 'n' && s[3] == 't' && s[4] == 'a' && s[5] == 'i' && s[6] == 'n' && s[7] == 's' && s[8] == '_' && s[9] == 's' && s[10] == 't' && s[11] == 'r' && s[12] == 'f' && s[13] == 'l' && s[14] == 'o' && s[15] == 'a' && s[16] == 't' {
        59
    } else if s.len() == 15 && s[0] == 'i' && s[1] == 'n' && s[2] == 's' && s[3] == 'e' && s[4] == 'r' && s[5] == 't' && s[6] == '_' && s[7] == 's' && s[8] == 't' && s[9] == 'r' && s[10] == 'f' && s[11] == 'l' && s[12] == 'o' && s[13] == 'a' && s[14] == 't' {
        60
    } else if s.len() == 15 && s[0] == 'd' && s[1] == 'e' && s[2] == 'l' && s[3] == 'e' && s[4] == 't' && s[5] == 'e' && s[6] == '_' && s[7] == 's' && s[8] == 't' && s[9] == 'r' && s[10] == 'f' && s[11] == 'l' && s[12] == 'o' && s[13] == 'a' && s[14] == 't' {
        61
    } else if s.len() == 12 && s[0] == 'a' && s[1] == 'l' && s[2] == 'l' && s[3] == 'o' && s[4] == 'c' && s[5] == '_' && s[6] == 's' && s[7] == 't' && s[8] == 'r' && s[9] == 's' && s[10] == 't' && s[11] == 'r' {
        62
    } else if s.len() == 10 && s[0] == 'l' && s[1] == 'e' && s[2] == 'n' && s[3] == '_' && s[4] == 's' && s[5] == 't' && s[6] == 'r' && s[7] == 's' && s[8] == 't' && s[9] == 'r' {
        63
    } else if s.len() == 13 && s[0] == 'l' && s[1] == 'o' && s[2] == 'o' && s[3] == 'k' && s[4] == 'u' && s[5] == 'p' && s[6] == '_' && s[7] == 's' && s[8] == 't' && s[9] == 'r' && s[10] == 's' && s[11] == 't' && s[12] == 'r' {
        64
    } else if s.len() == 15 && s[0] == 'c' && s[1] == 'o' && s[2] == 'n' && s[3] == 't' && s[4] == 'a' && s[5] == 'i' && s[6] == 'n' && s[7] == 's' && s[8] == '_' && s[9] == 's' && s[10] == 't' && s[11] == 'r' && s[12] == 's' && s[13] == 't' && s[14] == 'r' {
        65
    } else if s.len() == 13 && s[0] == 'i' && s[1] == 'n' && s[2] == 's' && s[3] == 'e' && s[4] == 'r' && s[5] == 't' && s[6] == '_' && s[7] == 's' && s[8] == 't' && s[9] == 'r' && s[10] == 's' && s[11] == 't' && s[12] == 'r' {
        66
    } else if s.len() == 13 && s[0] == 'd' && s[1] == 'e' && s[2] == 'l' && s[3] == 'e' && s[4] == 't' && s[5] == 'e' && s[6] == '_' && s[7] == 's' && s[8] == 't' && s[9] == 'r' && s[10] == 's' && s[11] == 't' && s[12] == 'r' {
        67
    } else {
        -1
    }
}

/// No two intrinsics share a name: each name leads back to its own position.
pub proof fn lemma_catalog_names_distinct()
    ensures
        catalog().len() == 68,
        forall|i: int| 0 <= i < 68 ==> catalog_pos(#[trigger] catalog()[i].0) == i,
        forall|i: int, j: int|
            0 <= i < j < 68 ==> (#[trigger] catalog()[i]).0 != (#[trigger] catalog()[j]).0,
{
    reveal_strlit("ref_str");
    reveal_strlit("drop_str");
    reveal_strlit("ref_map");
    reveal_strlit("drop_map");
    reveal_strlit("int_to_str");
    reveal_strlit("float_to_str");
    reveal_strlit("str_to_int");
    reveal_strlit("str_to_float");
    reveal_strlit("str_len");
    reveal_strlit("concat");
    reveal_strlit("match_pat");
    reveal_strlit("get_col");
    reveal_strlit("set_col");
    reveal_strlit("split_int");
    reveal_strlit("split_str");
    reveal_strlit("print_stdout");
    reveal_strlit("print");
    reveal_strlit("read_err");
    reveal_strlit("read_err_stdin");
    reveal_strlit("next_line");
    reveal_strlit("next_line_stdin");
    reveal_strlit("load_var_str");
    reveal_strlit("store_var_str");
    reveal_strlit("load_var_int");
    reveal_strlit("store_var_int");
    reveal_strlit("load_var_intmap");
    reveal_strlit("store_var_intmap");
    reveal_strlit("str_lt");
    reveal_strlit("str_gt");
    reveal_strlit("str_lte");
    reveal_strlit("str_gte");
    reveal_strlit("str_eq");
    reveal_strlit("alloc_intint");
    reveal_strlit("len_intint");
    reveal_strlit("lookup_intint");
    reveal_strlit("contains_intint");
    reveal_strlit("insert_intint");
    reveal_strlit("delete_intint");
    reveal_strlit("alloc_intfloat");
    reveal_strlit("len_intfloat");
    reveal_strlit("lookup_intfloat");
    reveal_strlit("contains_intfloat");
    reveal_strlit("insert_intfloat");
    reveal_strlit("delete_intfloat");
    reveal_strlit("alloc_intstr");
    reveal_strlit("len_intstr");
    reveal_strlit("lookup_intstr");
    reveal_strlit("contains_intstr");
    reveal_strlit("insert_intstr");
    reveal_strlit("delete_intstr");
    reveal_strlit("alloc_strint");
    reveal_strlit("len_strint");
    reveal_strlit("lookup_strint");
    reveal_strlit("contains_strint");
    reveal_strlit("insert_strint");
    reveal_strlit("delete_strint");
    reveal_strlit("alloc_strfloat");
    reveal_strlit("len_strfloat");
    reveal_strlit("lookup_strfloat");
    reveal_strlit("contains_strfloat");
    reveal_strlit("insert_strfloat");
    reveal_strlit("delete_strfloat");
    reveal_strlit("alloc_strstr");
    reveal_strlit("len_strstr");
    reveal_strlit("lookup_strstr");
    reveal_strlit("contains_strstr");
    reveal_strlit("insert_strstr");
    reveal_strlit("delete_strstr");
    assert forall|i: int| 0 <= i < 68 implies catalog_pos(#[trigger] catalog()[i].0) == i by {
        if i == 0 {
        } else if i == 1 {
        } else if i == 2 {
        } else if i == 3 {
        } else if i == 4 {
        } else if i == 5 {
        } else if i == 6 {
        } else if i == 7 {
        } else if i == 8 {
        } else if i == 9 {
        } else if i == 10 {
        } else if i == 11 {
        } else if i == 12 {
        } else if i == 13 {
        } else if i == 14 {
        } else if i == 15 {
        } else if i == 16 {
        } else if i == 17 {
        } else if i == 18 {
        } else if i == 19 {
        } else if i == 20 {
        } else if i == 21 {
        } else if i == 22 {
        } else if i == 23 {
        } else if i == 24 {
        } else if i == 25 {
        } else if i == 26 {
        } else if i == 27 {
        } else if i == 28 {
        } else if i == 29 {
        } else if i == 30 {
        } else if i == 31 {
        } else if i == 32 {
        } else if i == 33 {
        } else if i == 34 {
        } else if i == 35 {
        } else if i == 36 {
        } else if i == 37 {
        } else if i == 38 {
        } else if i == 39 {
        } else if i == 40 {
        } else if i == 41 {
        } else if i == 42 {
        } else if i == 43 {
        } else if i == 44 {
        } else if i == 45 {
        } else if i == 46 {
        } else if i == 47 {
        } else if i == 48 {
        } else if i == 49 {
        } else if i == 50 {
        } else if i == 51 {
        } else if i == 52 {
        } else if i == 53 {
        } else if i == 54 {
        } else if i == 55 {
        } else if i == 56 {
        } else if i == 57 {
        } else if i == 58 {
        } else if i == 59 {
        } else if i == 60 {
        } else if i == 61 {
        } else if i == 62 {
        } else if i == 63 {
        } else if i == 64 {
        } else if i == 65 {
        } else if i == 66 {
        } else {
        }
    }
}

/// Entry `i` of the catalog.
fn catalog_entry(i: usize) -> (r: (&'static str, Signature))
    requires
        i < 68,
    ensures
        r.0@ == catalog()[i as int].0,
        r.1.params@ == catalog()[i as int].1,
        r.1.ret == catalog()[i as int].2,
{
    match i {
        0 => ("ref_str", Signature::new(&[MachineType::StrRef], MachineType::Void)),
        1 => ("drop_str", Signature::new(&[MachineType::StrRef], MachineType::Void)),
        2 => ("ref_map", Signature::new(&[MachineType::Usize], MachineType::Void)),
        3 => ("drop_map", Signature::new(&[MachineType::Usize], MachineType::Void)),
        4 => ("int_to_str", Signature::new(&[MachineType::Int], MachineType::StrValue)),
        5 => ("float_to_str", Signature::new(&[MachineType::Float], MachineType::StrValue)),
        6 => ("str_to_int", Signature::new(&[MachineType::StrRef], MachineType::Int)),
        7 => ("str_to_float", Signature::new(&[MachineType::StrRef], MachineType::Float)),
        8 => ("str_len", Signature::new(&[MachineType::StrRef], MachineType::Usize)),
        9 => ("concat", Signature::new(&[MachineType::StrRef, MachineType::StrRef], MachineType::StrValue)),
        10 => ("match_pat", Signature::new(&[MachineType::Runtime, MachineType::StrRef, MachineType::StrRef], MachineType::Int)),
        11 => ("get_col", Signature::new(&[MachineType::Runtime, MachineType::Int], MachineType::StrValue)),
        12 => ("set_col", Signature::new(&[MachineType::Runtime, MachineType::Int, MachineType::StrRef], MachineType::Void)),
        13 => ("split_int", Signature::new(&[MachineType::Runtime, MachineType::StrRef, MachineType::Usize, MachineType::StrRef], MachineType::Int)),
        14 => ("split_str", Signature::new(&[MachineType::Runtime, MachineType::StrRef, MachineType::Usize, MachineType::StrRef], MachineType::Int)),
        15 => ("print_stdout", Signature::new(&[MachineType::Runtime, MachineType::StrRef], MachineType::Void)),
        16 => ("print", Signature::new(&[MachineType::Runtime, MachineType::StrRef, MachineType::StrRef, MachineType::Int], MachineType::Void)),
        17 => ("read_err", Signature::new(&[MachineType::Runtime, MachineType::StrRef], MachineType::Int)),
        18 => ("read_err_stdin", Signature::new(&[MachineType::Runtime], MachineType::Int)),
        19 => ("next_line", Signature::new(&[MachineType::Runtime, MachineType::StrRef], MachineType::StrValue)),
        20 => ("next_line_stdin", Signature::new(&[MachineType::Runtime], MachineType::StrValue)),
        21 => ("load_var_str", Signature::new(&[MachineType::Runtime, MachineType::Usize], MachineType::StrValue)),
        22 => ("store_var_str", Signature::new(&[MachineType::Runtime, MachineType::Usize, MachineType::StrRef], MachineType::Void)),
        23 => ("load_var_int", Signature::new(&[MachineType::Runtime, MachineType::Usize], MachineType::Int)),
        24 => ("store_var_int", Signature::new(&[MachineType::Runtime, MachineType::Usize, MachineType::Int], MachineType::Void)),
        25 => ("load_var_intmap", Signature::new(&[MachineType::Runtime, MachineType::Usize], MachineType::Usize)),
        26 => ("store_var_intmap", Signature::new(&[MachineType::Runtime, MachineType::Usize, MachineType::Usize], MachineType::Void)),
        27 => ("str_lt", Signature::new(&[MachineType::StrRef, MachineType::StrRef], MachineType::Int)),
        28 => ("str_gt", Signature::new(&[MachineType::StrRef, MachineType::StrRef], MachineType::Int)),
        29 => ("str_lte", Signature::new(&[MachineType::StrRef, MachineType::StrRef], MachineType::Int)),
        30 => ("str_gte", Signature::new(&[MachineType::StrRef, MachineType::StrRef], MachineType::Int)),
        31 => ("str_eq", Signature::new(&[MachineType::StrRef, MachineType::StrRef], MachineType::Int)),
        32 => ("alloc_intint", Signature::new(&[], MachineType::Usize)),
        33 => ("len_intint", Signature::new(&[MachineType::Usize], MachineType::Int)),
        34 => ("lookup_intint", Signature::new(&[MachineType::Usize, MachineType::Int], MachineType::Int)),
        35 => ("contains_intint", Signature::new(&[MachineType::Usize, MachineType::Int], MachineType::Int)),
        36 => ("insert_intint", Signature::new(&[MachineType::Usize, MachineType::Int, MachineType::Int], MachineType::Void)),
        37 => ("delete_intint", Signature::new(&[MachineType::Usize, MachineType::Int], MachineType::Void)),
        38 => ("alloc_intfloat", Signature::new(&[], MachineType::Usize)),
        39 => ("len_intfloat", Signature::new(&[MachineType::Usize], MachineType::Int)),
        40 => ("lookup_intfloat", Signature::new(&[MachineType::Usize, MachineType::Int], MachineType::Float)),
        41 => ("contains_intfloat", Signature::new(&[MachineType::Usize, MachineType::Int], MachineType::Int)),
        42 => ("insert_intfloat", Signature::new(&[MachineType::Usize, MachineType::Int, MachineType::Float], MachineType::Void)),
        43 => ("delete_intfloat", Signature::new(&[MachineType::Usize, MachineType::Int], MachineType::Void)),
        44 => ("alloc_intstr", Signature::new(&[], MachineType::Usize)),
        45 => ("len_intstr", Signature::new(&[MachineType::Usize], MachineType::Int)),
        46 => ("lookup_intstr", Signature::new(&[MachineType::Usize, MachineType::Int], MachineType::StrValue)),
        47 => ("contains_intstr", Signature::new(&[MachineType::Usize, MachineType::Int], MachineType::Int)),
        48 => ("insert_intstr", Signature::new(&[MachineType::Usize, MachineType::Int, MachineType::StrRef], MachineType::Void)),
        49 => ("delete_intstr", Signature::new(&[MachineType::Usize, MachineType::Int], MachineType::Void)),
        50 => ("alloc_strint", Signature::new(&[], MachineType::Usize)),
        51 => ("len_strint", Signature::new(&[MachineType::Usize], MachineType::Int)),
        52 => ("lookup_strint", Signature::new(&[MachineType::Usize, MachineType::StrRef], MachineType::Int)),
        53 => ("contains_strint", Signature::new(&[MachineType::Usize, MachineType::StrRef], MachineType::Int)),
        54 => ("insert_strint", Signature::new(&[MachineType::Usize, MachineType::StrRef, MachineType::Int], MachineType::Void)),
        55 => ("delete_strint", Signature::new(&[MachineType::Usize, MachineType::StrRef], MachineType::Void)),
        56 => ("alloc_strfloat", Signature::new(&[], MachineType::Usize)),
        57 => ("len_strfloat", Signature::new(&[MachineType::Usize], MachineType::Int)),
        58 => ("lookup_strfloat", Signature::new(&[MachineType::Usize, MachineType::StrRef], MachineType::Float)),
        59 => ("contains_strfloat", Signature::new(&[MachineType::Usize, MachineType::StrRef], MachineType::Int)),
        60 => ("insert_strfloat", Signature::new(&[MachineType::Usize, MachineType::StrRef, MachineType::Float], MachineType::Void)),
        61 => ("delete_strfloat", Signature::new(&[MachineType::Usize, MachineType::StrRef], MachineType::Void)),
        62 => ("alloc_strstr", Signature::new(&[], MachineType::Usize)),
        63 => ("len_strstr", Signature::new(&[MachineType::Usize], MachineType::Int)),
        64 => ("lookup_strstr", Signature::new(&[MachineType::Usize, MachineType::StrRef], MachineType::StrValue)),
        65 => ("contains_strstr", Signature::new(&[MachineType::Usize, MachineType::StrRef], MachineType::Int)),
        66 => ("insert_strstr", Signature::new(&[MachineType::Usize, MachineType::StrRef, MachineType::StrRef], MachineType::Void)),
        _ => ("delete_strstr", Signature::new(&[MachineType::Usize, MachineType::StrRef], MachineType::Void)),
    }
}

/// The catalog of every intrinsic of `catalog()`, in that order, each with its
/// signature and none declared yet.
pub fn register<D: Copy>() -> (r: IntrinsicMap<D>)
    ensures
        r.wf(),
        r.names() == catalog_names(),
        forall|i: int|
            0 <= i < catalog().len() ==> match (#[trigger] r.entry(catalog()[i].0)).state {
                Declaration::Pending(s) => s.params@ == catalog()[i].1 && s.ret == catalog()[i].2,
                Declaration::Declared(_) => false,
            },
{
    let mut m: IntrinsicMap<D> = IntrinsicMap::new();
    let mut i: usize = 0;
    proof {
        lemma_catalog_names_distinct();
        assert(catalog_names().take(0) =~= Seq::<Seq<char>>::empty());
    }
    while i < 68
        invariant
            m.wf(),
            i <= 68,
            catalog().len() == 68,
            forall|a: int, b: int|
                0 <= a < b < 68 ==> (#[trigger] catalog()[a]).0 != (#[trigger] catalog()[b]).0,
            m.names() == catalog_names().take(i as int),
            forall|k: int|
                0 <= k < i ==> match (#[trigger] m.entry(catalog()[k].0)).state {
                    Declaration::Pending(s) => s.params@ == catalog()[k].1 && s.ret
                        == catalog()[k].2,
                    Declaration::Declared(_) => false,
                },
        decreases 68 - i,
    {
        let (name, sig) = catalog_entry(i);
        let ghost prev = m;
        proof {
            if m.has(name@) {
                let k = choose|k: int| 0 <= k < m.names().len() && m.names()[k] == name@;
                assert(catalog_names()[k] == catalog()[k].0);
                assert(catalog()[k].0 != catalog()[i as int].0);
            }
        }
        m.register(name, sig);
        proof {
            assert(m.names() =~= catalog_names().take(i + 1));
            assert forall|k: int| 0 <= k < i + 1 implies match (#[trigger] m.entry(
                catalog()[k].0,
            )).state {
                Declaration::Pending(s) => s.params@ == catalog()[k].1 && s.ret == catalog()[k].2,
                Declaration::Declared(_) => false,
            } by {
                if k < i {
                    assert(catalog()[k].0 != catalog()[i as int].0);
                    assert(prev.names()[k] == catalog()[k].0);
                    assert(prev.has(catalog()[k].0));
                }
            }
        }
        i = i + 1;
    }
    proof {
        assert(catalog_names().take(68) =~= catalog_names());
    }
    m
}

} // verus!
