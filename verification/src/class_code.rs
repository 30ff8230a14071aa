//! Validated class codes: four uppercase ASCII letters followed by three
//! ASCII digits, as in `SOME101`, and an interning pool of such codes.

use vstd::prelude::*;

verus! {

/// The class-code format: exactly four uppercase ASCII letters followed by
/// three ASCII digits.
pub open spec fn code_format_ok(s: Seq<char>) -> bool {
    &&& s.len() == 7
    &&& (forall|i: int| 0 <= i < 4 ==> 'A' <= #[trigger] s[i] <= 'Z')
    &&& (forall|i: int| 4 <= i < 7 ==> '0' <= #[trigger] s[i] <= '9')
}

/// A string that satisfies the class-code format.
#[derive(Debug, PartialEq, Eq, PartialOrd, Ord, Clone, Hash)]
pub struct ClassCode(pub String);

impl ClassCode {
    /// Create a class code; fails exactly when the string does not have the
    /// required shape.
    pub fn new(s: &str) -> (r: Result<ClassCode, &'static str>)
        ensures
            r is Ok <==> code_format_ok(s@),
            r matches Ok(c) ==> c.0@ == s@,
    {
        let len: usize = s.unicode_len();
        if len != 7 {
            return Err("Given string does not follow the correct format");
        }
        let mut i: usize = 0;
        while i < 4
            invariant
                s@.len() == 7,
                i <= 4,
                forall|j: int| 0 <= j < i ==> 'A' <= #[trigger] s@[j] <= 'Z',
            decreases 4 - i,
        {
            let c = s.get_char(i);
            if !('A' <= c && c <= 'Z') {
                return Err("Given string does not follow the correct format");
            }
            i += 1;
        }
        let mut i: usize = 4;
        while i < 7
            invariant
                s@.len() == 7,
                4 <= i <= 7,
                forall|j: int| 4 <= j < i ==> '0' <= #[trigger] s@[j] <= '9',
            decreases 7 - i,
        {
            let c = s.get_char(i);
            if !('0' <= c && c <= '9') {
                return Err("Given string does not follow the correct format");
            }
            i += 1;
        }
        Ok(ClassCode(s.to_owned()))
    }

    /// The code as a string slice.
    pub fn get(&self) -> (r: &str)
        ensures
            r@ == self.0@,
    {
        self.0.as_str()
    }
}

/// Some code in the pool reads `code`.
pub open spec fn codes_contain(s: Seq<ClassCode>, code: Seq<char>) -> bool {
    exists|i: int| 0 <= i < s.len() && s[i].0@ == code
}

/// An interning pool of class codes: asking twice for the same string keeps
/// a single pool entry.
#[derive(Debug, PartialEq, Eq, PartialOrd, Ord)]
pub struct ClassCodes(pub Vec<ClassCode>);

impl ClassCodes {
    /// An empty pool.
    pub fn new() -> (r: ClassCodes)
        ensures
            r.0@ == Seq::<ClassCode>::empty(),
    {
        ClassCodes(Vec::new())
    }

    /// Fetch the code that reads `s`, validating and adding it to the pool
    /// first when it is new. Fails exactly when `s` is absent from the pool
    /// and does not have the class-code shape; the pool is then unchanged.
    pub fn get(&mut self, s: &str) -> (r: Result<ClassCode, &'static str>)
        ensures
            r is Ok <==> codes_contain(old(self).0@, s@) || code_format_ok(s@),
            r matches Ok(c) ==> c.0@ == s@,
            codes_contain(old(self).0@, s@) ==> *final(self) == *old(self),
            !codes_contain(old(self).0@, s@) && code_format_ok(s@) ==> {
                &&& final(self).0@.len() == old(self).0@.len() + 1
                &&& (forall|i: int|
                    0 <= i < old(self).0@.len() ==> final(self).0@[i] == old(self).0@[i])
                &&& final(self).0@.last().0@ == s@
            },
            r is Err ==> *final(self) == *old(self),
    {
        let n = self.0.len();
        let mut i: usize = 0;
        while i < n
            invariant
                n == self.0@.len(),
                i <= n,
                forall|j: int| 0 <= j < i ==> (#[trigger] self.0@[j]).0@ != s@,
            decreases n - i,
        {
            let entry = &self.0[i];
            if str_slices_equal(entry.0.as_str(), s) {
                return Ok(ClassCode(entry.0.clone()));
            }
            i += 1;
        }
        match ClassCode::new(s) {
            Ok(cc) => {
                self.0.push(ClassCode(cc.0.clone()));
                Ok(cc)
            },
            Err(e) => Err(e),
        }
    }
}

/// Character-by-character equality of two string slices.
fn str_slices_equal(a: &str, b: &str) -> (r: bool)
    ensures
        r == (a@ == b@),
{
    let alen: usize = a.unicode_len();
    let blen: usize = b.unicode_len();
    if alen != blen {
        proof {
            assert(a@ != b@) by {
                if a@ == b@ {
                    assert(a@.len() == b@.len());
                }
            }
        }
        return false;
    }
    let mut i: usize = 0;
    while i < alen
        invariant
            alen == a@.len(),
            alen == b@.len(),
            i <= alen,
            forall|j: int| 0 <= j < i ==> a@[j] == b@[j],
        decreases alen - i,
    {
        if a.get_char(i) != b.get_char(i) {
            proof {
                assert(a@ != b@) by {
                    if a@ == b@ {
                        assert(a@[i as int] == b@[i as int]);
                    }
                }
            }
            return false;
        }
        i += 1;
    }
    proof {
        assert(a@ =~= b@);
    }
    true
}

} // verus!
