//! Zero-terminated UTF-16 copies of strings, kept alive for as long as the manager lives.

use vstd::prelude::*;

verus! {

/// The UTF-16 code units of `c`: one for a character below `0x10000`, else a surrogate
/// pair.
pub open spec fn utf16_of(c: char) -> Seq<u16> {
    let v = c as u32;
    if v < 0x10000 {
        seq![v as u16]
    } else {
        let u = v - 0x10000;
        seq![(0xD800 + u / 0x400) as u16, (0xDC00 + u % 0x400) as u16]
    }
}

/// The UTF-16 code units of `s`, character by character.
pub open spec fn utf16_text(s: Seq<char>) -> Seq<u16>
    decreases s.len(),
{
    if s.len() == 0 {
        Seq::empty()
    } else {
        utf16_text(s.drop_last()) + utf16_of(s.last())
    }
}

/// Keeps zero-terminated UTF-16 copies of strings.
pub struct WideStringManager {
    memory_w: Vec<Vec<u16>>,
}

impl WideStringManager {
    /// The copies kept, in the order they were made.
    pub closed spec fn strings(&self) -> Seq<Seq<u16>> {
        Seq::new(self.memory_w@.len(), |i: int| self.memory_w@[i]@)
    }

    /// A manager with no copy.
    pub fn new() -> (r: Self)
        ensures
            r.strings() == Seq::<Seq<u16>>::empty(),
    {
        let r = WideStringManager { memory_w: Vec::new() };
        assert(r.strings() =~= Seq::<Seq<u16>>::empty());
        r
    }

    fn from_str_impl(text: &str) -> (r: Vec<u16>)
        ensures
            r@ == utf16_text(text@).push(0u16),
    {
        let chars = crate::font::to_chars(text);
        let mut r: Vec<u16> = Vec::new();
        let mut i: usize = 0;
        while i < chars.len()
            invariant
                i <= chars@.len(),
                chars@ == text@,
                r@ == utf16_text(chars@.take(i as int)),
            decreases chars@.len() - i,
        {
            let v = chars[i] as u32;
            if v < 0x10000 {
                r.push(v as u16);
            } else {
                let u = v - 0x10000;
                r.push((0xD800 + u / 0x400) as u16);
                r.push((0xDC00 + u % 0x400) as u16);
            }
            proof {
                assert(chars@.take(i + 1).drop_last() =~= chars@.take(i as int));
                assert(r@ =~= utf16_text(chars@.take(i + 1)));
            }
            i += 1;
        }
        assert(chars@.take(chars@.len() as int) =~= chars@);
        r.push(0);
        r
    }

    /// Keeps a zero-terminated UTF-16 copy of `text`, and gives its number.
    pub fn from_str(&mut self, text: &str) -> (r: usize)
        ensures
            r == old(self).strings().len(),
            final(self).strings() == old(self).strings().push(utf16_text(text@).push(0u16)),
    {
        let w = Self::from_str_impl(text);
        let r = self.memory_w.len();
        self.memory_w.push(w);
        assert(self.strings() =~= old(self).strings().push(utf16_text(text@).push(0u16)));
        r
    }

    /// The copy number `index`.
    pub fn get(&self, index: usize) -> (r: &[u16])
        requires
            index < self.strings().len(),
        ensures
            r@ == self.strings()[index as int],
    {
        self.memory_w[index].as_slice()
    }
}

/// The number of UTF-16 units before the first zero of `s`, which holds one.
pub fn wstr_len(s: &[u16]) -> (r: usize)
    requires
        exists|i: int| 0 <= i < s@.len() && s@[i] == 0,
    ensures
        r < s@.len(),
        s@[r as int] == 0,
        forall|i: int| 0 <= i < r ==> s@[i] != 0,
{
    let mut result: usize = 0;
    while s[result] != 0
        invariant
            result < s@.len(),
            exists|i: int| result <= i < s@.len() && s@[i] == 0,
            forall|i: int| 0 <= i < result ==> s@[i] != 0,
        decreases s@.len() - result,
    {
        result += 1;
    }
    result
}

} // verus!