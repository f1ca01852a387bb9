//! The wire format of the `log` file: a list of topics and a data payload.
//!
//! `num_topics [topic_len [topic_data; topic_len]; num_topics] data_len [data; data_len]`,
//! where the `num_*` and `*_len` fields are little-endian 32-bit integers.
use vstd::prelude::*;

verus! {

/// The little-endian 32-bit integer at `at`, if four bytes are there.
pub open spec fn le_u32_at(buf: Seq<u8>, at: int) -> Option<u32> {
    if 0 <= at && at + 4 <= buf.len() {
        Some(
            (buf[at] as int + buf[at + 1] as int * 0x100 + buf[at + 2] as int * 0x10000 + buf[at
                + 3] as int * 0x1000000) as u32,
        )
    } else {
        None
    }
}

/// A length-prefixed byte string at `at`, and the index just past it.
pub open spec fn length_data_at(buf: Seq<u8>, at: int) -> Option<(Seq<u8>, int)> {
    match le_u32_at(buf, at) {
        Some(n) => if at + 4 + n <= buf.len() {
            Some((buf.subrange(at + 4, at + 4 + n), at + 4 + n))
        } else {
            None
        },
        None => None,
    }
}

/// `count` length-prefixed byte strings in a row from `at`, and the index just past them.
pub open spec fn topics_at(buf: Seq<u8>, at: int, count: nat) -> Option<(Seq<Seq<u8>>, int)>
    decreases count,
{
    if count == 0 {
        Some((seq![], at))
    } else {
        match topics_at(buf, at, (count - 1) as nat) {
            Some((ts, p)) => match length_data_at(buf, p) {
                Some((t, q)) => Some((ts.push(t), q)),
                None => None,
            },
            None => None,
        }
    }
}

/// The topics and data of a log buffer; bytes after the data are ignored.
pub open spec fn spec_parse_log(buf: Seq<u8>) -> Option<(Seq<Seq<u8>>, Seq<u8>)> {
    match le_u32_at(buf, 0) {
        Some(n) => match topics_at(buf, 4, n as nat) {
            Some((ts, p)) => match length_data_at(buf, p) {
                Some((d, _)) => Some((ts, d)),
                None => None,
            },
            None => None,
        },
        None => None,
    }
}

proof fn lemma_topics_none_extends(buf: Seq<u8>, at: int, k: nat, n: nat)
    requires
        k <= n,
        topics_at(buf, at, k) is None,
    ensures
        topics_at(buf, at, n) is None,
    decreases n - k,
{
    if n > k {
        lemma_topics_none_extends(buf, at, k, (n - 1) as nat);
    }
}

proof fn lemma_topics_end(buf: Seq<u8>, at: int, n: nat)
    requires
        topics_at(buf, at, n) is Some,
        0 <= at,
    ensures
        at <= (topics_at(buf, at, n)->0).1 <= if at <= buf.len() { buf.len() as int } else { at },
    decreases n,
{
    if n > 0 {
        lemma_topics_end(buf, at, (n - 1) as nat);
    }
}

/// The four little-endian bytes of `n`.
pub open spec fn le_u32_bytes(n: u32) -> Seq<u8> {
    seq![(n % 0x100) as u8, (n / 0x100 % 0x100) as u8, (n / 0x10000 % 0x100) as u8, (n / 0x1000000) as u8]
}

/// A byte string with its length in front.
pub open spec fn encode_length_data(d: Seq<u8>) -> Seq<u8> {
    le_u32_bytes(d.len() as u32) + d
}

/// Length-prefixed byte strings, one after another.
pub open spec fn encode_topics(ts: Seq<Seq<u8>>) -> Seq<u8>
    decreases ts.len(),
{
    if ts.len() == 0 {
        seq![]
    } else {
        encode_topics(ts.drop_last()) + encode_length_data(ts.last())
    }
}

/// A log buffer that holds the given topics and data.
pub open spec fn encode_log(ts: Seq<Seq<u8>>, data: Seq<u8>) -> Seq<u8> {
    le_u32_bytes(ts.len() as u32) + encode_topics(ts) + encode_length_data(data)
}

proof fn lemma_le_u32_at(buf: Seq<u8>, at: int, n: u32)
    requires
        0 <= at,
        at + 4 <= buf.len(),
        buf.subrange(at, at + 4) == le_u32_bytes(n),
    ensures
        le_u32_at(buf, at) == Some(n),
{
    assert(buf[at] == le_u32_bytes(n)[0]);
    assert(buf[at + 1] == le_u32_bytes(n)[1]);
    assert(buf[at + 2] == le_u32_bytes(n)[2]);
    assert(buf[at + 3] == le_u32_bytes(n)[3]);
    assert(((n % 0x100) as u8) as int + ((n / 0x100 % 0x100) as u8) as int * 0x100 + ((n / 0x10000
        % 0x100) as u8) as int * 0x10000 + ((n / 0x1000000) as u8) as int * 0x1000000 == n as int)
        by (bit_vector);
}

proof fn lemma_length_data_in(pre: Seq<u8>, d: Seq<u8>, post: Seq<u8>)
    requires
        d.len() <= u32::MAX,
    ensures
        length_data_at(pre + encode_length_data(d) + post, pre.len() as int) == Some(
            (d, (pre.len() + 4 + d.len()) as int),
        ),
{
    let buf = pre + encode_length_data(d) + post;
    let at = pre.len() as int;
    assert(buf.subrange(at, at + 4) =~= le_u32_bytes(d.len() as u32));
    lemma_le_u32_at(buf, at, d.len() as u32);
    assert(buf.subrange(at + 4, at + 4 + d.len()) =~= d);
}

proof fn lemma_topics_in(pre: Seq<u8>, ts: Seq<Seq<u8>>, post: Seq<u8>)
    requires
        forall|i: int| 0 <= i < ts.len() ==> (#[trigger] ts[i]).len() <= u32::MAX,
    ensures
        topics_at(pre + encode_topics(ts) + post, pre.len() as int, ts.len()) == Some(
            (ts, (pre.len() + encode_topics(ts).len()) as int),
        ),
    decreases ts.len(),
{
    if ts.len() > 0 {
        let init = ts.drop_last();
        let t = ts.last();
        let rest = encode_length_data(t) + post;
        assert(pre + encode_topics(ts) + post =~= pre + encode_topics(init) + rest);
        lemma_topics_in(pre, init, rest);
        let pre2 = pre + encode_topics(init);
        assert(pre + encode_topics(ts) + post =~= pre2 + encode_length_data(t) + post);
        lemma_length_data_in(pre2, t, post);
        assert(init.push(t) =~= ts);
    }
}

/// A log written in the wire format parses back into its topics and data.
pub proof fn law_parse_encoded_log(ts: Seq<Seq<u8>>, data: Seq<u8>)
    requires
        ts.len() <= u32::MAX,
        forall|i: int| 0 <= i < ts.len() ==> (#[trigger] ts[i]).len() <= u32::MAX,
        data.len() <= u32::MAX,
    ensures
        spec_parse_log(encode_log(ts, data)) == Some((ts, data)),
{
    let buf = encode_log(ts, data);
    assert(buf.subrange(0, 4) =~= le_u32_bytes(ts.len() as u32));
    lemma_le_u32_at(buf, 0, ts.len() as u32);
    let head = le_u32_bytes(ts.len() as u32);
    assert(buf =~= head + encode_topics(ts) + encode_length_data(data));
    lemma_topics_in(head, ts, encode_length_data(data));
    let pre = head + encode_topics(ts);
    assert(buf =~= pre + encode_length_data(data) + Seq::<u8>::empty());
    lemma_length_data_in(pre, data, Seq::<u8>::empty());
}

fn read_le_u32(buf: &[u8], at: usize) -> (r: Option<u32>)
    ensures
        r == le_u32_at(buf@, at as int),
{
    if at <= buf.len() && buf.len() - at >= 4 {
        let v: u32 = buf[at] as u32 + buf[at + 1] as u32 * 0x100 + buf[at + 2] as u32 * 0x10000
            + buf[at + 3] as u32 * 0x1000000;
        Some(v)
    } else {
        None
    }
}

fn copy_range(buf: &[u8], from: usize, to: usize) -> (v: Vec<u8>)
    requires
        from <= to <= buf@.len(),
    ensures
        v@ == buf@.subrange(from as int, to as int),
{
    let mut v: Vec<u8> = Vec::new();
    let mut i: usize = from;
    while i < to
        invariant
            from <= i <= to <= buf@.len(),
            v@ == buf@.subrange(from as int, i as int),
        decreases to - i,
    {
        v.push(buf[i]);
        i = i + 1;
        assert(v@ =~= buf@.subrange(from as int, i as int));
    }
    v
}

fn read_length_data(buf: &[u8], at: usize) -> (r: Option<(Vec<u8>, usize)>)
    ensures
        match r {
            Some((d, q)) => length_data_at(buf@, at as int) == Some((d@, q as int)),
            None => length_data_at(buf@, at as int) is None,
        },
{
    match read_le_u32(buf, at) {
        Some(n) => {
            if (n as usize) <= buf.len() - at - 4 {
                let end = at + 4 + n as usize;
                let d = copy_range(buf, at + 4, end);
                Some((d, end))
            } else {
                None
            }
        },
        None => None,
    }
}

pub open spec fn topic_views(ts: Seq<Vec<u8>>) -> Seq<Seq<u8>> {
    ts.map_values(|t: Vec<u8>| t@)
}

/// Parses a log buffer into its topics and data.
pub fn parse_log(buf: &[u8]) -> (r: Option<(Vec<Vec<u8>>, Vec<u8>)>)
    ensures
        match r {
            Some((ts, d)) => spec_parse_log(buf@) == Some((topic_views(ts@), d@)),
            None => spec_parse_log(buf@) is None,
        },
{
    let n = match read_le_u32(buf, 0) {
        Some(n) => n,
        None => return None,
    };
    let mut topics: Vec<Vec<u8>> = Vec::new();
    let mut p: usize = 4;
    let mut k: u32 = 0;
    while k < n
        invariant
            0 <= k <= n,
            le_u32_at(buf@, 0) == Some(n),
            topics_at(buf@, 4, k as nat) == Some((topic_views(topics@), p as int)),
        decreases n - k,
    {
        proof {
            lemma_topics_end(buf@, 4, k as nat);
        }
        match read_length_data(buf, p) {
            Some((t, q)) => {
                let ghost before = topics@;
                topics.push(t);
                assert(topic_views(topics@) =~= topic_views(before).push(t@));
                p = q;
            },
            None => {
                proof {
                    lemma_topics_none_extends(buf@, 4, (k + 1) as nat, n as nat);
                }
                return None;
            },
        }
        k = k + 1;
    }
    match read_length_data(buf, p) {
        Some((d, _)) => Some((topics, d)),
        None => None,
    }
}

} // verus!
