//! Splitting an H.264 Annex-B byte stream into NAL units.
use vstd::prelude::*;

verus! {

/// The three bytes `00 00 01` stand at `i`.
pub open spec fn short_code_at(s: Seq<u8>, i: int) -> bool {
    0 <= i && i + 3 <= s.len() && s[i] == 0 && s[i + 1] == 0 && s[i + 2] == 1
}

/// The four bytes `00 00 00 01` stand at `i`.
pub open spec fn long_code_at(s: Seq<u8>, i: int) -> bool {
    0 <= i && i + 4 <= s.len() && s[i] == 0 && s[i + 1] == 0 && s[i + 2] == 0 && s[i + 3] == 1
}

/// A start code, short or long, begins at `i`.
pub open spec fn code_at(s: Seq<u8>, i: int) -> bool {
    short_code_at(s, i) || long_code_at(s, i)
}

/// How many bytes the start code at `i` takes.
pub open spec fn code_width(s: Seq<u8>, i: int) -> int {
    if short_code_at(s, i) {
        3
    } else {
        4
    }
}

/// `p` is the first position not before `from` at which a start code begins.
pub open spec fn is_first_code(s: Seq<u8>, from: int, p: int) -> bool {
    &&& from <= p
    &&& code_at(s, p)
    &&& forall|j: int| from <= j < p ==> !#[trigger] code_at(s, j)
}

/// The first start code not before `from`, if there is one.
pub open spec fn find_code(s: Seq<u8>, from: int) -> Option<int> {
    if exists|p: int| is_first_code(s, from, p) {
        Some(choose|p: int| is_first_code(s, from, p))
    } else {
        None
    }
}

/// A position that satisfies `is_first_code` is what `find_code` gives.
pub proof fn lemma_found(s: Seq<u8>, from: int, p: int)
    requires
        is_first_code(s, from, p),
    ensures
        find_code(s, from) == Some(p),
{
    let q = choose|q: int| is_first_code(s, from, q);
    assert(is_first_code(s, from, q));
    if q < p {
        assert(!code_at(s, q));
    }
    if p < q {
        assert(!code_at(s, p));
    }
}

/// `find_code` finds a start code exactly when there is one.
pub proof fn lemma_find_code(s: Seq<u8>, from: int)
    ensures
        match find_code(s, from) {
            Some(p) => is_first_code(s, from, p),
            None => forall|j: int| from <= j ==> !#[trigger] code_at(s, j),
        },
{
    if find_code(s, from) is None {
        assert forall|j: int| from <= j implies !#[trigger] code_at(s, j) by {
            if code_at(s, j) {
                lemma_least_code(s, from, j);
            }
        }
    }
}

/// Where there is a start code there is a first one.
proof fn lemma_least_code(s: Seq<u8>, from: int, j: int)
    requires
        from <= j,
        code_at(s, j),
    ensures
        exists|p: int| is_first_code(s, from, p),
    decreases j - from,
{
    if forall|k: int| from <= k < j ==> !#[trigger] code_at(s, k) {
        assert(is_first_code(s, from, j));
    } else {
        let k = choose|k: int| from <= k < j && #[trigger] code_at(s, k);
        lemma_least_code(s, from, k);
    }
}

/// Finds the first start code at or after `from`: where it begins and how many bytes it takes.
pub fn find_start_code(data: &[u8], from: usize) -> (found: Option<(usize, usize)>)
    ensures
        match found {
            Some((start, prefix)) => {
                &&& is_first_code(data@, from as int, start as int)
                &&& prefix == code_width(data@, start as int)
                &&& start + prefix <= data@.len()
            },
            None => forall|j: int| from <= j ==> !#[trigger] code_at(data@, j),
        },
        match find_code(data@, from as int) {
            Some(p) => found matches Some((start, _)) && start == p,
            None => found is None,
        },
{
    let mut index: usize = from;
    while data.len() >= 3 && index <= data.len() - 3
        invariant
            from <= index,
            forall|j: int| from <= j < index ==> !#[trigger] code_at(data@, j),
        decreases data.len() - index,
    {
        if data[index] == 0 && data[index + 1] == 0 {
            if data[index + 2] == 1 {
                proof {
                    lemma_found(data@, from as int, index as int);
                }
                return Some((index, 3));
            }
            if data[index + 2] == 0 && index < data.len() - 3 && data[index + 3] == 1 {
                proof {
                    lemma_found(data@, from as int, index as int);
                }
                return Some((index, 4));
            }
        }
        index += 1;
    }
    proof {
        lemma_find_code(data@, from as int);
    }
    None
}

/// The type of a NAL unit is in the low five bits of its first byte.
pub open spec fn type_of_byte(byte: u8) -> u8 {
    byte & 0x1f
}

/// The type of the NAL unit that follows the first start code of `s`, if a byte follows it.
pub open spec fn first_nal_type(s: Seq<u8>) -> Option<u8> {
    match find_code(s, 0) {
        Some(p) => {
            let header = p + code_width(s, p);
            if header < s.len() {
                Some(type_of_byte(s[header]))
            } else {
                None
            }
        },
        None => None,
    }
}

/// Some start code of `s` is followed by a byte of type `wanted`.
pub open spec fn has_nal_type(s: Seq<u8>, wanted: u8) -> bool {
    exists|i: int| #[trigger] short_code_at(s, i) && i + 3 < s.len() && type_of_byte(s[i + 3]) == wanted
}

/// The type of the first NAL unit in `nal`.
pub fn nal_type(nal: &[u8]) -> (kind: Option<u8>)
    ensures
        kind == first_nal_type(nal@),
{
    let end: usize = nal.len();
    match find_start_code(nal, 0) {
        Some((start, prefix)) => {
            if start + prefix < end {
                Some(nal[start + prefix] & 0x1f)
            } else {
                None
            }
        },
        None => None,
    }
}

/// Whether any NAL unit in `data` has the type `wanted`.
pub fn contains_nal_type(data: &[u8], wanted: u8) -> (found: bool)
    ensures
        found == has_nal_type(data@, wanted),
{
    let end: usize = data.len();
    let mut offset: usize = 0;
    loop
        invariant
            end == data@.len(),
            offset <= data@.len(),
            // Every start code that leads to the wanted type lies ahead.
            forall|i: int|
                #[trigger] short_code_at(data@, i) && i + 3 < data@.len() && type_of_byte(
                    data@[i + 3],
                ) == wanted ==> offset <= i,
        decreases data@.len() - offset,
    {
        match find_start_code(data, offset) {
            Some((start, prefix)) => {
                let ghost one = start + prefix - 3;
                assert(short_code_at(data@, one));
                if start + prefix < end && data[start + prefix] & 0x1f == wanted {
                    return true;
                }
                assert forall|i: int|
                    #[trigger] short_code_at(data@, i) && i + 3 < data@.len() && type_of_byte(
                        data@[i + 3],
                    ) == wanted implies start + prefix <= i by {
                    assert(code_at(data@, i));
                    assert(start <= i);
                    assert(i != one);
                }
                offset = start + prefix;
            },
            None => {
                assert forall|i: int| offset <= i implies !#[trigger] short_code_at(data@, i) by {
                    assert(!code_at(data@, i));
                }
                return false;
            },
        }
    }
}

/// An incremental splitter: bytes go in as they arrive, whole NAL units come out.
pub struct AnnexBParser {
    buffer: Vec<u8>,
}

impl View for AnnexBParser {
    type V = Seq<u8>;

    /// The bytes that have been taken in and not yet handed out.
    closed spec fn view(&self) -> Seq<u8> {
        self.buffer@
    }
}

/// What is kept of `b` while no NAL unit in it is complete: the bytes from its first start code.
pub open spec fn from_first_code(b: Seq<u8>) -> Seq<u8> {
    match find_code(b, 0) {
        Some(p) => b.skip(p),
        None => b,
    }
}

/// The first complete NAL unit in `b`, and the bytes behind it. A unit is complete once the
/// start code of the next one is there.
pub open spec fn split_first(b: Seq<u8>) -> Option<(Seq<u8>, Seq<u8>)> {
    let c = from_first_code(b);
    if find_code(b, 0) is None {
        None
    } else {
        match find_code(c, code_width(c, 0)) {
            Some(n) => Some((c.take(n), c.skip(n))),
            None => None,
        }
    }
}

impl Default for AnnexBParser {
    /// A parser that has taken in nothing.
    fn default() -> (parser: Self)
        ensures
            parser@ == Seq::<u8>::empty(),
    {
        AnnexBParser { buffer: Vec::new() }
    }
}

impl AnnexBParser {
    /// Takes in more bytes of the stream.
    pub fn push(&mut self, data: &[u8])
        ensures
            final(self)@ == old(self)@ + data@,
    {
        self.buffer.extend_from_slice(data);
        assert(self.buffer@ =~= old(self).buffer@ + data@);
    }

    /// Hands out the next complete NAL unit, its start code included. Bytes before the first
    /// start code are dropped.
    pub fn next_nal(&mut self) -> (nal: Option<Vec<u8>>)
        ensures
            match split_first(old(self)@) {
                Some((unit, rest)) => {
                    &&& nal matches Some(v) && v@ == unit
                    &&& final(self)@ == rest
                },
                None => nal is None && final(self)@ == from_first_code(old(self)@),
            },
    {
        let first: usize = match find_start_code(self.buffer.as_slice(), 0) {
            Some((first, _)) => first,
            None => return None,
        };
        if first > 0 {
            let kept = self.buffer.split_off(first);
            self.buffer = kept;
        }
        assert(self.buffer@ =~= from_first_code(old(self)@));
        proof {
            lemma_skip_to_code(old(self)@, first as int);
        }
        let prefix: usize = match find_start_code(self.buffer.as_slice(), 0) {
            Some((_, prefix)) => prefix,
            None => return None,
        };
        let next: usize = match find_start_code(self.buffer.as_slice(), prefix) {
            Some((next, _)) => next,
            None => return None,
        };
        let mut nal = self.buffer.split_off(next);
        std::mem::swap(&mut nal, &mut self.buffer);
        Some(nal)
    }

    /// Hands out what is left once the stream has ended, if a start code is in it.
    pub fn finish(&mut self) -> (nal: Option<Vec<u8>>)
        ensures
            match find_code(old(self)@, 0) {
                Some(_) => {
                    &&& nal matches Some(v) && v@ == old(self)@
                    &&& final(self)@ == Seq::<u8>::empty()
                },
                None => nal is None && final(self)@ == old(self)@,
            },
    {
        match find_start_code(self.buffer.as_slice(), 0) {
            Some(_) => {
                let mut nal: Vec<u8> = Vec::new();
                std::mem::swap(&mut nal, &mut self.buffer);
                Some(nal)
            },
            None => None,
        }
    }
}

/// Bytes that begin at the first start code of `b` begin with a start code.
proof fn lemma_skip_to_code(b: Seq<u8>, p: int)
    requires
        is_first_code(b, 0, p),
    ensures
        is_first_code(b.skip(p), 0, 0),
        find_code(b.skip(p), 0) == Some(0int),
        code_width(b.skip(p), 0) == code_width(b, p),
{
    let c = b.skip(p);
    assert(code_at(c, 0));
    lemma_found(c, 0, 0);
}

} // verus!
