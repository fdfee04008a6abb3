//! The storage envelope: byte-level compression and encryption layers that the
//! bridge applies when writing a backup and reverses when reading one back.
//!
//! Compression is a run-length code: the stream is cut into runs of one
//! repeated byte (at most 255 long) and each run is stored as a count byte
//! followed by the byte itself.  Encryption is a repeating-key stream cipher:
//! each byte is combined with the key byte at its position modulo the key
//! length; applying it twice with the same key restores the input.

use vstd::prelude::*;

verus! {

/// First index `>= j` at which the leading run of `s[0]` stops, capped at 255.
pub open spec fn run_end(s: Seq<u8>, j: int) -> int
    decreases s.len() - j,
    when 0 <= j <= s.len()
{
    if j < s.len() && j < 255 && s[j] == s[0] {
        run_end(s, j + 1)
    } else {
        j
    }
}

proof fn lemma_run_end_props(s: Seq<u8>, j: int)
    requires
        1 <= j <= 255,
        j <= s.len(),
        forall|k: int| 1 <= k < j ==> #[trigger] s[k] == s[0],
    ensures
        j <= run_end(s, j),
        run_end(s, j) <= 255,
        run_end(s, j) <= s.len(),
        forall|k: int| 1 <= k < run_end(s, j) ==> #[trigger] s[k] == s[0],
        run_end(s, j) == 255 || run_end(s, j) == s.len() || s[run_end(s, j)] != s[0],
    decreases s.len() - j,
{
    if j < s.len() && j < 255 && s[j] == s[0] {
        lemma_run_end_props(s, j + 1);
    }
}

/// Length of the leading run of `s[0]`, capped at 255.
pub open spec fn leading_run(s: Seq<u8>) -> int {
    run_end(s, 1)
}

pub proof fn lemma_leading_run_props(s: Seq<u8>)
    requires
        s.len() > 0,
    ensures
        1 <= leading_run(s),
        leading_run(s) <= 255,
        leading_run(s) <= s.len(),
        forall|k: int| 0 <= k < leading_run(s) ==> #[trigger] s[k] == s[0],
        leading_run(s) == 255 || leading_run(s) == s.len() || s[leading_run(s)] != s[0],
{
    lemma_run_end_props(s, 1);
}

#[via_fn]
proof fn compress_spec_dec(s: Seq<u8>)
{
    if s.len() > 0 {
        lemma_leading_run_props(s);
    }
}

/// The run-length coding of `s`: count byte, run byte, repeated.
pub open spec fn compress_spec(s: Seq<u8>) -> Seq<u8>
    decreases s.len(),
    via compress_spec_dec
{
    if s.len() == 0 {
        Seq::empty()
    } else {
        seq![leading_run(s) as u8, s[0]] + compress_spec(s.skip(leading_run(s)))
    }
}

/// Decoding of a run-length stream: each (count, byte) pair expands to
/// `count` copies of the byte; a trailing lone byte is ignored.
pub open spec fn decompress_spec(s: Seq<u8>) -> Seq<u8>
    decreases s.len(),
{
    if s.len() < 2 {
        Seq::empty()
    } else {
        Seq::new(s[0] as nat, |i: int| s[1]) + decompress_spec(s.skip(2))
    }
}

/// Decompression undoes compression on every byte stream.
pub proof fn lemma_compress_round_trip(s: Seq<u8>)
    ensures
        decompress_spec(compress_spec(s)) == s,
    decreases s.len(),
{
    if s.len() == 0 {
        assert(decompress_spec(compress_spec(s)) =~= s);
    } else {
        lemma_leading_run_props(s);
        let r = leading_run(s);
        let rest = s.skip(r);
        let enc = compress_spec(s);
        assert(enc =~= seq![r as u8, s[0]] + compress_spec(rest));
        assert(enc.len() >= 2);
        assert(enc[0] == r as u8);
        assert(enc[1] == s[0]);
        assert(enc.skip(2) =~= compress_spec(rest));
        lemma_compress_round_trip(rest);
        assert(r as u8 as nat == r as nat);
        assert(decompress_spec(enc) =~= Seq::new(r as nat, |i: int| s[0]) + rest);
        assert(decompress_spec(enc) =~= s) by {
            assert(forall|i: int| 0 <= i < r ==> #[trigger] s[i] == s[0]);
            assert(forall|i: int|
                0 <= i < s.len() ==> (Seq::new(r as nat, |j: int| s[0]) + rest)[i] == #[trigger] s[
                    i
                ]);
        }
    }
}

/// The stream-cipher image of `data` under `key`.
pub open spec fn cipher_spec(data: Seq<u8>, key: Seq<u8>) -> Seq<u8>
    recommends
        key.len() > 0,
{
    Seq::new(data.len(), |i: int| data[i] ^ key[i % (key.len() as int)])
}

/// Applying the cipher twice with the same non-empty key restores the input.
pub proof fn lemma_cipher_round_trip(data: Seq<u8>, key: Seq<u8>)
    requires
        key.len() > 0,
    ensures
        cipher_spec(cipher_spec(data, key), key) == data,
{
    assert(forall|x: u8, k: u8| #[trigger] ((x ^ k) ^ k) == x) by (bit_vector);
    assert(cipher_spec(cipher_spec(data, key), key) =~= data);
}

/// Run-length compress `data`.
pub fn compress(data: &Vec<u8>) -> (r: Vec<u8>)
    ensures
        r@ == compress_spec(data@),
{
    let mut out: Vec<u8> = Vec::new();
    let mut i: usize = 0;
    proof {
        assert(data@.skip(0) =~= data@);
    }
    while i < data.len()
        invariant
            i <= data.len(),
            out@ + compress_spec(data@.skip(i as int)) =~= compress_spec(data@),
        decreases data.len() - i,
    {
        let ghost s = data@.skip(i as int);
        let mut j: usize = i + 1;
        while j < data.len() && j - i < 255 && data[j] == data[i]
            invariant
                i < j,
                j <= data.len(),
                j - i <= 255,
                i < data.len(),
                s == data@.skip(i as int),
                run_end(s, j - i) == leading_run(s),
                forall|k: int| 1 <= k < j - i ==> #[trigger] s[k] == s[0],
            decreases data.len() - j,
        {
            assert(s[j - i] == data@[j as int]);
            assert(s[0] == data@[i as int]);
            j = j + 1;
        }
        // the inner loop stopped exactly where the specification run stops
        proof {
            if j < data.len() {
                assert(s[j - i] == data@[j as int]);
            }
        }
        assert(run_end(s, j - i) == j - i);
        assert(leading_run(s) == j - i);
        proof {
            lemma_leading_run_props(s);
        }
        let count: u8 = (j - i) as u8;
        out.push(count);
        out.push(data[i]);
        proof {
            let r = leading_run(s);
            assert(compress_spec(s) =~= seq![r as u8, s[0]] + compress_spec(s.skip(r)));
            assert(s.skip(r) =~= data@.skip(j as int));
            assert(out@ + compress_spec(data@.skip(j as int)) =~= compress_spec(data@));
        }
        i = j;
    }
    proof {
        assert(data@.skip(data@.len() as int) =~= Seq::<u8>::empty());
        assert(out@ =~= compress_spec(data@));
    }
    out
}

/// Expand a run-length stream back to the original bytes.
pub fn decompress(data: &Vec<u8>) -> (r: Vec<u8>)
    ensures
        r@ == decompress_spec(data@),
{
    let mut out: Vec<u8> = Vec::new();
    let mut i: usize = 0;
    proof {
        assert(data@.skip(0) =~= data@);
    }
    while i < data.len() && i + 1 < data.len()
        invariant
            i <= data.len(),
            out@ + decompress_spec(data@.skip(i as int)) =~= decompress_spec(data@),
        decreases data.len() - i,
    {
        let count = data[i];
        let b = data[i + 1];
        let ghost s = data@.skip(i as int);
        assert(s[0] == count && s[1] == b);
        let mut c: usize = 0;
        let ghost out_before = out@;
        while c < count as usize
            invariant
                c <= count as usize,
                out@ == out_before + Seq::new(c as nat, |k: int| b),
            decreases count as usize - c,
        {
            out.push(b);
            assert(out@ =~= out_before + Seq::new((c + 1) as nat, |k: int| b));
            c = c + 1;
        }
        proof {
            assert(decompress_spec(s) =~= Seq::new(count as nat, |k: int| b) + decompress_spec(
                s.skip(2),
            ));
            assert(s.skip(2) =~= data@.skip(i + 2));
            assert(out@ + decompress_spec(data@.skip(i + 2)) =~= decompress_spec(data@));
        }
        i = i + 2;
    }
    proof {
        assert(decompress_spec(data@.skip(i as int)) =~= Seq::<u8>::empty());
        assert(out@ =~= decompress_spec(data@));
    }
    out
}

/// Apply the repeating-key cipher; its own inverse for a fixed key.
pub fn cipher(data: &Vec<u8>, key: &Vec<u8>) -> (r: Vec<u8>)
    requires
        key.len() > 0,
    ensures
        r@ == cipher_spec(data@, key@),
{
    let mut out: Vec<u8> = Vec::new();
    let mut i: usize = 0;
    while i < data.len()
        invariant
            i <= data.len(),
            key.len() > 0,
            out@ =~= cipher_spec(data@, key@).take(i as int),
        decreases data.len() - i,
    {
        let k = key[i % key.len()];
        out.push(data[i] ^ k);
        assert(out@ =~= cipher_spec(data@, key@).take(i + 1));
        i = i + 1;
    }
    assert(out@ =~= cipher_spec(data@, key@));
    out
}

/// Bytes as stored for a backup written with the given envelope layers:
/// compression first, then encryption.
pub open spec fn stored_spec(data: Seq<u8>, compressed: bool, key: Option<Seq<u8>>) -> Seq<u8> {
    let c = if compressed {
        compress_spec(data)
    } else {
        data
    };
    match key {
        Some(k) => cipher_spec(c, k),
        None => c,
    }
}

/// Bytes recovered from a stored backup: decryption first, then decompression.
pub open spec fn recovered_spec(stored: Seq<u8>, compressed: bool, key: Option<Seq<u8>>) -> Seq<
    u8,
> {
    let d = match key {
        Some(k) => cipher_spec(stored, k),
        None => stored,
    };
    if compressed {
        decompress_spec(d)
    } else {
        d
    }
}

/// Whatever combination of the two layers was applied at write time, reading
/// back with the same flags and key restores the original byte stream.
pub proof fn lemma_envelope_round_trip(data: Seq<u8>, compressed: bool, key: Option<Seq<u8>>)
    requires
        key is Some ==> key->0.len() > 0,
    ensures
        recovered_spec(stored_spec(data, compressed, key), compressed, key) == data,
{
    let c = if compressed {
        compress_spec(data)
    } else {
        data
    };
    match key {
        Some(k) => {
            lemma_cipher_round_trip(c, k);
        }
        None => {}
    }
    if compressed {
        lemma_compress_round_trip(data);
    }
}

/// Apply the write-side envelope to a byte stream.
pub fn apply_envelope(data: &Vec<u8>, compressed: bool, key: &Option<Vec<u8>>) -> (r: Vec<u8>)
    requires
        key is Some ==> key->0@.len() > 0,
    ensures
        r@ == stored_spec(data@, compressed, match *key {
            Some(ref k) => Some(k@),
            None => None,
        }),
{
    let staged: Vec<u8> = if compressed {
        compress(data)
    } else {
        clone_bytes(data)
    };
    match key {
        Some(k) => cipher(&staged, k),
        None => staged,
    }
}

/// Reverse the envelope of a stored backup.
pub fn open_envelope(stored: &Vec<u8>, compressed: bool, key: &Option<Vec<u8>>) -> (r: Vec<u8>)
    requires
        key is Some ==> key->0@.len() > 0,
    ensures
        r@ == recovered_spec(stored@, compressed, match *key {
            Some(ref k) => Some(k@),
            None => None,
        }),
{
    let staged: Vec<u8> = match key {
        Some(k) => cipher(stored, k),
        None => clone_bytes(stored),
    };
    if compressed {
        decompress(&staged)
    } else {
        staged
    }
}

/// Byte-for-byte copy of a buffer.
pub fn clone_bytes(data: &Vec<u8>) -> (r: Vec<u8>)
    ensures
        r@ == data@,
{
    let mut out: Vec<u8> = Vec::new();
    let mut i: usize = 0;
    while i < data.len()
        invariant
            i <= data.len(),
            out@ =~= data@.take(i as int),
        decreases data.len() - i,
    {
        out.push(data[i]);
        assert(out@ =~= data@.take(i + 1));
        i = i + 1;
    }
    assert(out@ =~= data@);
    out
}

} // verus!
