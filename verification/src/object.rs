use vstd::prelude::*;

verus! {

/// A runtime value: the result of evaluating a formula.
///
/// Floating values are carried as the IEEE 754 bit pattern of the
/// 64-bit value.
#[derive(Debug, Clone, PartialEq)]
pub enum Object {
    Int(i64),
    Double(u64),
    Bool(bool),
    Str(String),
}

/// The mathematical shadow of `Object`.
pub enum SpecObject {
    Int(i64),
    Double(u64),
    Bool(bool),
    Str(Seq<char>),
}

impl View for Object {
    type V = SpecObject;

    open spec fn view(&self) -> SpecObject {
        match self {
            Object::Int(n) => SpecObject::Int(*n),
            Object::Double(b) => SpecObject::Double(*b),
            Object::Bool(b) => SpecObject::Bool(*b),
            Object::Str(s) => SpecObject::Str(s@),
        }
    }
}

impl Object {
    /// An owned copy whose view equals this value's view.
    pub fn duplicate(&self) -> (r: Object)
        ensures
            r@ == self@,
    {
        match self {
            Object::Int(n) => Object::Int(*n),
            Object::Double(b) => Object::Double(*b),
            Object::Bool(b) => Object::Bool(*b),
            Object::Str(s) => Object::Str(s.clone()),
        }
    }
}

/// The first binding for `name` among `entries`, searching from the
/// front.
pub open spec fn spec_lookup(entries: Seq<(Seq<char>, SpecObject)>, name: Seq<char>) -> Option<
    SpecObject,
>
    decreases entries.len(),
{
    if entries.len() == 0 {
        Option::None
    } else if entries[0].0 == name {
        Option::Some(entries[0].1)
    } else {
        spec_lookup(entries.drop_first(), name)
    }
}

/// Read-only variable bindings, supplied by the host and never mutated
/// during evaluation. Lookups return a copy of the bound value; when a
/// name is bound twice, the earliest binding wins.
#[derive(Debug, Clone)]
pub struct Context {
    inner: Vec<(String, Object)>,
}

impl View for Context {
    type V = Seq<(Seq<char>, SpecObject)>;

    closed spec fn view(&self) -> Seq<(Seq<char>, SpecObject)> {
        Seq::new(
            self.inner@.len(),
            |i: int|
                if 0 <= i < self.inner@.len() {
                    (self.inner@[i].0@, self.inner@[i].1@)
                } else {
                    (Seq::empty(), SpecObject::Bool(false))
                },
        )
    }
}

impl Context {
    /// A context holding the given bindings.
    pub fn from_map(map: Vec<(String, Object)>) -> (r: Self)
        ensures
            r@.len() == map@.len(),
            forall|i: int|
                0 <= i < map@.len() ==> r@[i] == (map@[i].0@, map@[i].1@),
    {
        Self { inner: map }
    }

    /// The value bound to `key`, if any, as a copy.
    pub fn get(&self, key: &str) -> (r: Option<Object>)
        ensures
            match r {
                Option::Some(o) => spec_lookup(self@, key@) == Option::Some(o@),
                Option::None => spec_lookup(self@, key@) == Option::<SpecObject>::None,
            },
    {
        let n = self.inner.len();
        let mut i: usize = 0;
        proof {
            assert(self@.skip(0) =~= self@);
        }
        while i < n
            invariant
                0 <= i <= n,
                n == self.inner@.len(),
                spec_lookup(self@, key@) == spec_lookup(self@.skip(i as int), key@),
            decreases n - i,
        {
            proof {
                assert(self@.skip(i as int)[0] == self@[i as int]);
            }
            if str_eq(self.inner[i].0.as_str(), key) {
                return Option::Some(self.inner[i].1.duplicate());
            }
            proof {
                assert(self@.skip(i as int).drop_first() =~= self@.skip(i as int + 1));
            }
            i = i + 1;
        }
        proof {
            assert(self@.skip(n as int).len() == 0);
        }
        Option::None
    }
}

impl Default for Context {
    /// The empty context: no bindings.
    fn default() -> (r: Self)
        ensures
            r@.len() == 0,
    {
        Context { inner: Vec::new() }
    }
}

/// Character-for-character string equality.
pub fn str_eq(a: &str, b: &str) -> (r: bool)
    ensures
        r == (a@ == b@),
{
    let la = a.unicode_len();
    let lb = b.unicode_len();
    if la != lb {
        proof {
            assert(a@ != b@) by {
                assert(a@.len() != b@.len());
            }
        }
        return false;
    }
    let mut i: usize = 0;
    while i < la
        invariant
            0 <= i <= la,
            la == a@.len(),
            la == b@.len(),
            forall|j: int| 0 <= j < i ==> a@[j] == b@[j],
        decreases la - i,
    {
        if a.get_char(i) != b.get_char(i) {
            return false;
        }
        i = i + 1;
    }
    proof {
        assert(a@ =~= b@);
    }
    true
}

} // verus!
