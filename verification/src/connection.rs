//! Connection identifiers: byte strings of bounded length.

use vstd::prelude::*;

verus! {

/// The longest connection id, in bytes.
pub const MAX_LEN: usize = 20;

/// The shortest id that a local endpoint issues, in bytes.
pub const LOCAL_ID_MIN_LEN: usize = 4;

/// The shortest destination id that a client may choose for its Initial packets, in bytes.
pub const INITIAL_ID_MIN_LEN: usize = 8;

/// An internal connection handle (an entity of the endpoint's world).
pub type Entity = u64;

/// The bytes of an id, inline.
#[derive(Clone, Copy, Debug)]
struct IdBytes {
    bytes: [u8; 20],
    len: u8,
}

impl IdBytes {
    closed spec fn view(&self) -> Seq<u8> {
        self.bytes@.subrange(0, self.len as int)
    }

    closed spec fn wf(&self) -> bool {
        self.len as int <= MAX_LEN
    }

    /// Copies `bytes` when their length is between `min_len` and `MAX_LEN`.
    fn try_from_bytes(bytes: &[u8], min_len: usize) -> (r: Option<IdBytes>)
        ensures
            r is Some <==> min_len <= bytes@.len() <= MAX_LEN,
            r matches Some(id) ==> id.wf() && id.view() == bytes@,
    {
        let len = bytes.len();
        if len < min_len || len > MAX_LEN {
            return None;
        }
        let mut out = [0u8; 20];
        let mut i: usize = 0;
        while i < len
            invariant
                len == bytes@.len(),
                len <= MAX_LEN,
                i <= len,
                out@.len() == 20,
                forall|j: int| 0 <= j < i ==> out@[j] == bytes@[j],
            decreases len - i,
        {
            out[i] = bytes[i];
            i = i + 1;
        }
        let r = IdBytes { bytes: out, len: len as u8 };
        proof {
            assert(r.view() =~= bytes@);
        }
        Some(r)
    }

    /// Compares with other bytes.
    fn matches(&self, bytes: &[u8]) -> (r: bool)
        requires
            self.wf(),
        ensures
            r == (self.view() == bytes@),
    {
        let len = self.len as usize;
        if bytes.len() != len {
            proof {
                assert(self.view().len() != bytes@.len());
            }
            return false;
        }
        let mut i: usize = 0;
        while i < len
            invariant
                len == self.len,
                len <= MAX_LEN,
                self.bytes@.len() == 20,
                bytes@.len() == len,
                i <= len,
                forall|j: int| 0 <= j < i ==> self.bytes@[j] == bytes@[j],
            decreases len - i,
        {
            if self.bytes[i] != bytes[i] {
                proof {
                    assert(self.view()[i as int] != bytes@[i as int]);
                }
                return false;
            }
            i = i + 1;
        }
        proof {
            assert(self.view() =~= bytes@);
        }
        true
    }

    /// Compares two ids.
    fn same(&self, other: &IdBytes) -> (r: bool)
        requires
            self.wf(),
            other.wf(),
        ensures
            r == (self.view() == other.view()),
    {
        let len = self.len as usize;
        if other.len as usize != len {
            proof {
                assert(self.view().len() != other.view().len());
            }
            return false;
        }
        let mut i: usize = 0;
        while i < len
            invariant
                len == self.len,
                len == other.len,
                len <= MAX_LEN,
                self.bytes@.len() == 20,
                other.bytes@.len() == 20,
                i <= len,
                forall|j: int| 0 <= j < i ==> self.bytes@[j] == other.bytes@[j],
            decreases len - i,
        {
            if self.bytes[i] != other.bytes[i] {
                proof {
                    assert(self.view()[i as int] != other.view()[i as int]);
                }
                return false;
            }
            i = i + 1;
        }
        proof {
            assert(self.view() =~= other.view());
        }
        true
    }
}

/// A values that maps are keyed by: it compares exactly as its view.
pub trait Key: View + Copy {
    /// The key is well formed.
    spec fn key_wf(&self) -> bool;

    /// Compares two keys.
    fn same_key(&self, other: &Self) -> (r: bool)
        requires
            self.key_wf(),
            other.key_wf(),
        ensures
            r == (self@ == other@),
    ;
}

/// A connection id that this endpoint issued.
#[derive(Clone, Copy, Debug)]
pub struct LocalId(IdBytes);

/// The destination connection id that a client chose for its first packets.
#[derive(Clone, Copy, Debug)]
pub struct InitialId(IdBytes);

impl View for LocalId {
    type V = Seq<u8>;

    closed spec fn view(&self) -> Seq<u8> {
        self.0.view()
    }
}

impl View for InitialId {
    type V = Seq<u8>;

    closed spec fn view(&self) -> Seq<u8> {
        self.0.view()
    }
}

impl LocalId {
    /// The id is at most `MAX_LEN` bytes long.
    pub closed spec fn wf(&self) -> bool {
        self.0.wf()
    }

    /// The id with these bytes, when their length is between
    /// `LOCAL_ID_MIN_LEN` and `MAX_LEN`.
    pub fn try_from_bytes(bytes: &[u8]) -> (r: Option<LocalId>)
        ensures
            r is Some <==> LOCAL_ID_MIN_LEN <= bytes@.len() <= MAX_LEN,
            r matches Some(id) ==> id.wf() && id@ == bytes@,
    {
        match IdBytes::try_from_bytes(bytes, LOCAL_ID_MIN_LEN) {
            Some(b) => Some(LocalId(b)),
            None => None,
        }
    }

    /// Returns `true` if the id has exactly these bytes.
    pub fn matches(&self, bytes: &[u8]) -> (r: bool)
        requires
            self.wf(),
        ensures
            r == (self@ == bytes@),
    {
        self.0.matches(bytes)
    }

    /// The length of the id.
    pub fn len(&self) -> (r: usize)
        requires
            self.wf(),
        ensures
            r == self@.len(),
    {
        self.0.len as usize
    }
}

impl InitialId {
    /// The id is at most `MAX_LEN` bytes long.
    pub closed spec fn wf(&self) -> bool {
        self.0.wf()
    }

    /// The id with these bytes, when their length is between
    /// `INITIAL_ID_MIN_LEN` and `MAX_LEN`.
    pub fn try_from_bytes(bytes: &[u8]) -> (r: Option<InitialId>)
        ensures
            r is Some <==> INITIAL_ID_MIN_LEN <= bytes@.len() <= MAX_LEN,
            r matches Some(id) ==> id.wf() && id@ == bytes@,
    {
        match IdBytes::try_from_bytes(bytes, INITIAL_ID_MIN_LEN) {
            Some(b) => Some(InitialId(b)),
            None => None,
        }
    }

    /// Returns `true` if the id has exactly these bytes.
    pub fn matches(&self, bytes: &[u8]) -> (r: bool)
        requires
            self.wf(),
        ensures
            r == (self@ == bytes@),
    {
        self.0.matches(bytes)
    }
}

impl Key for LocalId {
    open spec fn key_wf(&self) -> bool {
        self.wf()
    }

    fn same_key(&self, other: &Self) -> (r: bool) {
        self.0.same(&other.0)
    }
}

impl Key for InitialId {
    open spec fn key_wf(&self) -> bool {
        self.wf()
    }

    fn same_key(&self, other: &Self) -> (r: bool) {
        self.0.same(&other.0)
    }
}

} // verus!
