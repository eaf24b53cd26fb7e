use vstd::prelude::*;

verus! {

/// A carrier for a textual request.
pub struct Type1 {
    pub request: String,
}

/// A carrier with nothing inside.
pub struct Type2 {}

/// A value held outright or merely borrowed.
pub enum OwnOrNot<'a, T> {
    Own(T),
    Not(&'a T),
}

impl<'a, T> OwnOrNot<'a, T> {
    /// The value held, whichever way it is held.
    pub open spec fn stored(&self) -> T {
        match self {
            OwnOrNot::Own(value) => *value,
            OwnOrNot::Not(value) => **value,
        }
    }

    /// Hold a value outright.
    pub fn from_own(x: T) -> (r: OwnOrNot<'a, T>)
        ensures
            r is Own,
            r.stored() == x,
    {
        OwnOrNot::Own(x)
    }

    /// Hold a borrowed value.
    pub fn from_ref(x: &'a T) -> (r: OwnOrNot<'a, T>)
        ensures
            r is Not,
            r.stored() == *x,
    {
        OwnOrNot::Not(x)
    }

    /// A reference to the held value, whichever way it is held.
    pub fn get(&self) -> (r: &T)
        ensures
            *r == self.stored(),
    {
        match self {
            OwnOrNot::Own(data) => data,
            OwnOrNot::Not(data) => *data,
        }
    }
}

/// Borrow the request out of a `Type1`.
pub fn create_from_1<'a>(v: &'a Type1) -> (r: OwnOrNot<'a, String>)
    ensures
        r is Not,
        r.stored() == v.request,
{
    OwnOrNot::from_ref(&v.request)
}

/// Build an owned value for a `Type2`.
pub fn create_from_2(_item: &Type2) -> (r: OwnOrNot<String>)
    ensures
        r is Own,
        r.stored()@ == "toto"@,
{
    let s = String::from_str("toto");
    OwnOrNot::from_own(s)
}

/// Walk through both ways of holding a value.
pub fn usage() {
    let t1 = Type1 { request: String::from_str("tata") };
    let holder1 = create_from_1(&t1);
    let res1 = holder1.get();
    proof {
        assert(res1@ == t1.request@);
    }
    let t2 = Type2 {};
    let holder2 = create_from_2(&t2);
    let res2 = holder2.get();
    proof {
        reveal_strlit("toto");
        assert(res2@.len() == 4);
    }
}

} // verus!
