//! Fixed-width host strings.
//!
//! The host speaks in strings of 16-bit units, NUL-terminated, with no NUL
//! before the terminator.  `EfiStr` is an immutable such string, `EfiString`
//! a growable one.

use vstd::prelude::*;

verus! {

/// Well-formed string units: at least the terminator, the terminator last,
/// and no NUL anywhere before it.
pub open spec fn wf_units(u: Seq<u16>) -> bool {
    &&& u.len() >= 1
    &&& u[u.len() - 1] == 0
    &&& forall|i: int| 0 <= i < u.len() - 1 ==> u[i] != 0
}

/// Whether a character can be carried by one string unit: not NUL and within
/// the 16-bit range.
pub open spec fn unit_char(c: char) -> bool {
    (c as u32) > 0 && (c as u32) < 0x10000
}

/// The unit encoding of a sequence of characters, one unit per character.
pub open spec fn encode_units(s: Seq<char>) -> Seq<u16> {
    s.map(|i: int, c: char| (c as u32) as u16)
}

/// An immutable string of 16-bit units with a terminating NUL.
#[derive(Debug)]
pub struct EfiStr {
    units: Vec<u16>,
}

impl View for EfiStr {
    type V = Seq<u16>;

    closed spec fn view(&self) -> Seq<u16> {
        self.units@
    }
}

impl EfiStr {
    /// Whether the string is well formed.
    pub open spec fn wf(&self) -> bool {
        wf_units(self@)
    }

    /// The string holding only the terminator.
    pub fn empty() -> (s: EfiStr)
        ensures
            s@ =~= seq![0u16],
            s.wf(),
    {
        let mut units: Vec<u16> = Vec::new();
        units.push(0);
        EfiStr { units }
    }

    /// Wraps a unit buffer after checking that it is NUL-terminated with no
    /// NUL before the end.
    pub fn from_units(units: Vec<u16>) -> (r: Option<EfiStr>)
        ensures
            r is Some <==> wf_units(units@),
            r is Some ==> r->0@ == units@,
    {
        if units.len() == 0 {
            return None;
        }
        if units[units.len() - 1] != 0 {
            return None;
        }
        let end = units.len() - 1;
        let mut i: usize = 0;
        while i < end
            invariant
                end == units@.len() - 1,
                i <= end,
                forall|j: int| 0 <= j < i ==> units@[j] != 0,
            decreases end - i,
        {
            if units[i] == 0 {
                return None;
            }
            i += 1;
        }
        Some(EfiStr { units })
    }

    /// The units of the string, terminator included.
    pub fn as_units(&self) -> (r: &[u16])
        ensures
            r@ == self@,
    {
        self.units.as_slice()
    }

    /// Length of the string in characters, without the terminator.
    pub fn len(&self) -> (r: usize)
        requires
            self.wf(),
        ensures
            r == self@.len() - 1,
    {
        self.units.len() - 1
    }

    /// Whether the string holds only the terminator.
    pub fn is_empty(&self) -> (r: bool)
        requires
            self.wf(),
        ensures
            r == (self@.len() == 1),
    {
        self.len() == 0
    }

    /// A growable copy of this string.
    pub fn to_efi_string(&self) -> (r: EfiString)
        ensures
            r@ == self@,
    {
        EfiString { units: self.units.clone() }
    }
}

/// A growable string of 16-bit units, always NUL-terminated.
#[derive(Debug)]
pub struct EfiString {
    units: Vec<u16>,
}

impl View for EfiString {
    type V = Seq<u16>;

    closed spec fn view(&self) -> Seq<u16> {
        self.units@
    }
}

impl EfiString {
    /// Whether the string is well formed.
    pub open spec fn wf(&self) -> bool {
        wf_units(self@)
    }

    /// The empty growable string: only the terminator.
    pub fn new() -> (s: EfiString)
        ensures
            s@ =~= seq![0u16],
            s.wf(),
    {
        let mut units: Vec<u16> = Vec::new();
        units.push(0);
        EfiString { units }
    }

    /// An immutable borrow of the string.
    pub fn as_str(&self) -> (r: EfiStr)
        ensures
            r@ == self@,
    {
        EfiStr { units: self.units.clone() }
    }

    /// Appends one character before the terminator.
    pub fn push(&mut self, c: EfiChar)
        requires
            old(self).wf(),
            c.0 != 0,
            old(self)@.len() < usize::MAX,
        ensures
            final(self)@ =~= old(self)@.drop_last().push(c.0).push(0),
            final(self).wf(),
    {
        self.units.pop();
        self.units.push(c.0);
        self.units.push(0);
        proof {
            assert forall|i: int| 0 <= i < self@.len() - 1 implies self@[i] != 0 by {
                if i < old(self)@.len() - 1 {
                    assert(self@[i] == old(self)@[i]);
                }
            }
        }
    }

    /// Appends every character of `s` before the terminator, one unit per
    /// character.  Fails, leaving the string unchanged, at the first NUL or
    /// the first character too wide for one unit.
    #[verifier::loop_isolation(false)]
    pub fn push_str(&mut self, s: &str) -> (r: Result<(), EfiStringError>)
        requires
            old(self).wf(),
            old(self)@.len() + s@.len() < usize::MAX,
        ensures
            match r {
                Ok(()) => {
                    &&& forall|i: int| 0 <= i < s@.len() ==> unit_char(#[trigger] s@[i])
                    &&& final(self)@ =~= old(self)@.drop_last() + encode_units(s@) + seq![0u16]
                    &&& final(self).wf()
                },
                Err(EfiStringError::HasNul(i)) => {
                    &&& 0 <= i < s@.len()
                    &&& s@[i as int] as u32 == 0
                    &&& forall|j: int| 0 <= j < i ==> unit_char(#[trigger] s@[j])
                    &&& final(self)@ == old(self)@
                },
                Err(EfiStringError::UnsupportedChar(i, c)) => {
                    &&& 0 <= i < s@.len()
                    &&& c == s@[i as int]
                    &&& c as u32 >= 0x10000
                    &&& forall|j: int| 0 <= j < i ==> unit_char(#[trigger] s@[j])
                    &&& final(self)@ == old(self)@
                },
            },
    {
        let ghost old_units = self@;
        let orig_len = self.units.len();
        self.units.pop();
        let n = s.unicode_len();
        let mut i: usize = 0;
        while i < n
            invariant
                n == s@.len(),
                i <= n,
                orig_len == old_units.len(),
                old_units.len() >= 1,
                old_units[old_units.len() - 1] == 0,
                self@ =~= old_units.drop_last() + encode_units(s@.take(i as int)),
                forall|j: int| 0 <= j < i ==> unit_char(#[trigger] s@[j]),
            decreases n - i,
        {
            let c = s.get_char(i);
            let v = c as u32;
            if v == 0 {
                self.units.truncate(orig_len - 1);
                self.units.push(0);
                proof {
                    assert(self@ =~= old_units);
                }
                return Err(EfiStringError::HasNul(i));
            }
            if v >= 0x10000 {
                self.units.truncate(orig_len - 1);
                self.units.push(0);
                proof {
                    assert(self@ =~= old_units);
                }
                return Err(EfiStringError::UnsupportedChar(i, c));
            }
            self.units.push(v as u16);
            proof {
                assert(encode_units(s@.take(i + 1)) =~= encode_units(s@.take(i as int)).push(
                    s@[i as int] as u16,
                ));
            }
            i += 1;
        }
        self.units.push(0);
        proof {
            assert(s@.take(n as int) =~= s@);
            assert forall|k: int| 0 <= k < self@.len() - 1 implies self@[k] != 0 by {
                if k >= old_units.len() - 1 {
                    let m = k - (old_units.len() - 1);
                    if m < s@.len() {
                        assert(unit_char(s@[m]));
                        assert(self@[k] == (s@[m] as u32) as u16);
                    }
                }
            }
        }
        Ok(())
    }

    /// Builds a string from a Rust string slice, one unit per character.
    pub fn from_str(s: &str) -> (r: Result<EfiString, EfiStringError>)
        requires
            s@.len() + 1 < usize::MAX,
        ensures
            match r {
                Ok(v) => {
                    &&& forall|i: int| 0 <= i < s@.len() ==> unit_char(#[trigger] s@[i])
                    &&& v@ =~= encode_units(s@) + seq![0u16]
                    &&& v.wf()
                },
                Err(EfiStringError::HasNul(i)) => {
                    &&& 0 <= i < s@.len()
                    &&& s@[i as int] as u32 == 0
                    &&& forall|j: int| 0 <= j < i ==> unit_char(#[trigger] s@[j])
                },
                Err(EfiStringError::UnsupportedChar(i, c)) => {
                    &&& 0 <= i < s@.len()
                    &&& c == s@[i as int]
                    &&& c as u32 >= 0x10000
                    &&& forall|j: int| 0 <= j < i ==> unit_char(#[trigger] s@[j])
                },
            },
    {
        let mut v = EfiString::new();
        match v.push_str(s) {
            Ok(()) => {
                proof {
                    assert(v@ =~= encode_units(s@) + seq![0u16]);
                }
                Ok(v)
            },
            Err(e) => Err(e),
        }
    }
}

/// A single non-NUL string unit.
#[derive(Clone, Copy, PartialEq, Eq, Structural, Debug)]
pub struct EfiChar(pub u16);

impl EfiChar {
    /// The full stop, `.`.
    pub fn full_stop() -> (c: EfiChar)
        ensures
            c.0 == 0x2e,
    {
        EfiChar(0x2e)
    }

    /// The reverse solidus, `\`.
    pub fn reverse_solidus() -> (c: EfiChar)
        ensures
            c.0 == 0x5c,
    {
        EfiChar(0x5c)
    }
}

/// Why a string could not be built or extended.
#[derive(Clone, Copy, PartialEq, Eq, Structural, Debug)]
pub enum EfiStringError {
    /// The input holds a NUL at this character index.
    HasNul(usize),
    /// The character at this index does not fit in one 16-bit unit.
    UnsupportedChar(usize, char),
}

} // verus!
