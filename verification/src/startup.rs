//! The compute side of node startup.
//!
//! Starting the subsystem is mostly transport work — bind the listen
//! address, dial the bootstrap peers, start a relay listener on each,
//! subscribe to gossip, advertise capabilities — performed by the
//! surrounding runtime. What is computed rather than performed lives
//! here: the gossip topic name derived from the chain identifier, and the
//! fixed set of capability tags the node advertises.

use vstd::prelude::*;

verus! {

use vstd::string::StringExecFns;

/// A chain identifier: a 251-bit field element, carried big-endian in 32
/// bytes. Distinct chains have distinct identifiers, so the gossip topic
/// derived from it separates the chains' announcements.
#[derive(Clone, Debug, PartialEq, Eq)]
pub struct ChainId {
    pub bytes: Vec<u8>,
}

impl ChainId {
    /// A well-formed identifier holds exactly 32 bytes.
    pub open spec fn wf(self) -> bool {
        self.bytes@.len() == 32
    }

    /// Wraps 32 big-endian bytes as a chain identifier.
    pub fn from_bytes(bytes: Vec<u8>) -> (r: Self)
        requires
            bytes@.len() == 32,
        ensures
            r.bytes@ == bytes@,
            r.wf(),
    {
        ChainId { bytes }
    }
}

/// The lower-case hex digit of a value below sixteen.
pub open spec fn hex_digit(n: u8) -> char {
    if n == 0 {
        '0'
    } else if n == 1 {
        '1'
    } else if n == 2 {
        '2'
    } else if n == 3 {
        '3'
    } else if n == 4 {
        '4'
    } else if n == 5 {
        '5'
    } else if n == 6 {
        '6'
    } else if n == 7 {
        '7'
    } else if n == 8 {
        '8'
    } else if n == 9 {
        '9'
    } else if n == 10 {
        'a'
    } else if n == 11 {
        'b'
    } else if n == 12 {
        'c'
    } else if n == 13 {
        'd'
    } else if n == 14 {
        'e'
    } else {
        'f'
    }
}

/// Two lower-case hex digits per byte, high nibble first.
pub open spec fn hex_chars(s: Seq<u8>) -> Seq<char>
    decreases s.len(),
{
    if s.len() == 0 {
        Seq::empty()
    } else {
        seq![hex_digit(s[0] / 16), hex_digit(s[0] % 16)] + hex_chars(s.drop_first())
    }
}

/// The bytes with their leading zero bytes removed.
pub open spec fn trim_zeros(s: Seq<u8>) -> Seq<u8>
    decreases s.len(),
{
    if s.len() > 0 && s[0] == 0 {
        trim_zeros(s.drop_first())
    } else {
        s
    }
}

/// The minimal lower-case hex form of a big-endian integer: no leading
/// zero digits, and a single `0` for zero.
pub open spec fn hex_minimal(s: Seq<u8>) -> Seq<char> {
    let t = trim_zeros(s);
    if t.len() == 0 {
        seq!['0']
    } else if t[0] < 16 {
        seq![hex_digit(t[0])] + hex_chars(t.drop_first())
    } else {
        hex_chars(t)
    }
}

/// The gossip topic that block announcements for this chain travel on.
pub open spec fn topic_spec(chain_id_bytes: Seq<u8>) -> Seq<char> {
    "blocks/0x"@ + hex_minimal(chain_id_bytes)
}

/// The hex digit of a value below sixteen, as a one-character string.
fn hex_digit_str(n: u8) -> (r: &'static str)
    requires
        n < 16,
    ensures
        r@ == seq![hex_digit(n)],
{
    proof {
        reveal_strlit("0");
        reveal_strlit("1");
        reveal_strlit("2");
        reveal_strlit("3");
        reveal_strlit("4");
        reveal_strlit("5");
        reveal_strlit("6");
        reveal_strlit("7");
        reveal_strlit("8");
        reveal_strlit("9");
        reveal_strlit("a");
        reveal_strlit("b");
        reveal_strlit("c");
        reveal_strlit("d");
        reveal_strlit("e");
        reveal_strlit("f");
    }
    if n == 0 {
        "0"
    } else if n == 1 {
        "1"
    } else if n == 2 {
        "2"
    } else if n == 3 {
        "3"
    } else if n == 4 {
        "4"
    } else if n == 5 {
        "5"
    } else if n == 6 {
        "6"
    } else if n == 7 {
        "7"
    } else if n == 8 {
        "8"
    } else if n == 9 {
        "9"
    } else if n == 10 {
        "a"
    } else if n == 11 {
        "b"
    } else if n == 12 {
        "c"
    } else if n == 13 {
        "d"
    } else if n == 14 {
        "e"
    } else {
        "f"
    }
}

/// Derives the gossip topic for a chain, as [`topic_spec`] says:
/// `blocks/0x` followed by the identifier in minimal lower-case hex.
pub fn block_propagation_topic(chain_id: &ChainId) -> (r: String)
    ensures
        r@ == topic_spec(chain_id.bytes@),
{
    let bytes = &chain_id.bytes;
    let mut out = String::from_str("blocks/0x");
    let mut i: usize = 0;
    proof {
        assert(bytes@.skip(0) =~= bytes@);
    }
    loop
        invariant
            i <= bytes@.len(),
            out@ == "blocks/0x"@,
            trim_zeros(bytes@) == trim_zeros(bytes@.skip(i as int)),
        ensures
            i <= bytes@.len(),
            out@ == "blocks/0x"@,
            trim_zeros(bytes@) == trim_zeros(bytes@.skip(i as int)),
            i == bytes@.len() || bytes@[i as int] != 0,
        decreases bytes@.len() - i,
    {
        if i == bytes.len() {
            break;
        }
        if bytes[i] != 0 {
            break;
        }
        proof {
            assert(bytes@.skip(i as int).drop_first() =~= bytes@.skip(i as int + 1));
        }
        i = i + 1;
    }
    let ghost trimmed = trim_zeros(bytes@);
    if i == bytes.len() {
        proof {
            assert(bytes@.skip(i as int) =~= Seq::<u8>::empty());
        }
        out.append(hex_digit_str(0));
        assert(out@ =~= topic_spec(chain_id.bytes@));
        return out;
    }
    proof {
        assert(bytes@.skip(i as int)[0] == bytes@[i as int]);
        assert(trimmed == bytes@.skip(i as int));
    }
    let first = bytes[i];
    if first < 16 {
        out.append(hex_digit_str(first));
        i = i + 1;
        proof {
            assert(bytes@.skip(i as int) =~= trimmed.drop_first());
        }
    }
    let ghost target = topic_spec(chain_id.bytes@);
    proof {
        assert(target == out@ + hex_chars(bytes@.skip(i as int)));
    }
    while i < bytes.len()
        invariant
            i <= bytes@.len(),
            target == topic_spec(chain_id.bytes@),
            target == out@ + hex_chars(bytes@.skip(i as int)),
        decreases bytes@.len() - i,
    {
        let b = bytes[i];
        proof {
            assert(bytes@.skip(i as int)[0] == b);
            assert(bytes@.skip(i as int).drop_first() =~= bytes@.skip(i as int + 1));
        }
        out.append(hex_digit_str(b / 16));
        out.append(hex_digit_str(b % 16));
        i = i + 1;
        proof {
            assert(target =~= out@ + hex_chars(bytes@.skip(i as int)));
        }
    }
    proof {
        assert(bytes@.skip(i as int) =~= Seq::<u8>::empty());
        assert(out@ =~= target);
    }
    out
}

/// What [`capabilities`] returns.
pub open spec fn capabilities_spec() -> Seq<Seq<char>> {
    seq!["core/block-propagate/1"@, "core/blocks-sync/1"@]
}

/// The fixed capability tags the node advertises after startup.
pub fn capabilities() -> (r: Vec<&'static str>)
    ensures
        r@.len() == capabilities_spec().len(),
        forall|i: int| 0 <= i < r@.len() ==> r@[i]@ == capabilities_spec()[i],
{
    let mut v: Vec<&'static str> = Vec::new();
    v.push("core/block-propagate/1");
    v.push("core/blocks-sync/1");
    v
}

} // verus!
