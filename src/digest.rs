//! The digest of an entry: SHA-256 over the contents of its files, in path
//! order, followed by the bytes of its command, written as lowercase hex.
use sha2::Digest;
use vstd::prelude::*;
use vstd::utf8::decode_utf8;
use vstd::utf8::encode_utf8;
use vstd::utf8::encode_utf8_decode_utf8;

verus! {

/// What SHA-256 makes of a byte string.
pub uninterp spec fn sha256_of(data: Seq<u8>) -> Seq<u8>;

/// Relies on sha2::Sha256::digest: the SHA-256 hash of `data`, which
/// depends on those bytes alone.
#[verifier::external_body]
fn sha256(data: &Vec<u8>) -> (r: Vec<u8>)
    ensures
        r@ == sha256_of(data@),
{
    sha2::Sha256::digest(data.as_slice()).to_vec()
}

/// The sixteen lowercase hex digits, by value.
pub open spec fn hex_digits() -> Seq<char> {
    seq!['0', '1', '2', '3', '4', '5', '6', '7', '8', '9', 'a', 'b', 'c', 'd', 'e', 'f']
}

/// Two lowercase hex digits per byte, high nibble first.
pub open spec fn hex_of(b: Seq<u8>) -> Seq<char>
    decreases b.len(),
{
    if b.len() == 0 {
        seq![]
    } else {
        hex_of(b.drop_last()) + seq![
            hex_digits()[(b.last() / 16) as int],
            hex_digits()[(b.last() % 16) as int],
        ]
    }
}

/// The value of a lowercase hex digit.
pub open spec fn hex_value(c: char) -> int {
    if c == '0' { 0 } else if c == '1' { 1 } else if c == '2' { 2 } else if c == '3' { 3 }
    else if c == '4' { 4 } else if c == '5' { 5 } else if c == '6' { 6 } else if c == '7' { 7 }
    else if c == '8' { 8 } else if c == '9' { 9 } else if c == 'a' { 10 } else if c == 'b' { 11 }
    else if c == 'c' { 12 } else if c == 'd' { 13 } else if c == 'e' { 14 } else { 15 }
}

proof fn lemma_hex_value(i: int)
    requires
        0 <= i < 16,
    ensures
        hex_value(hex_digits()[i]) == i,
{
    let d = hex_digits();
    assert(d[0] == '0' && d[1] == '1' && d[2] == '2' && d[3] == '3');
    assert(d[4] == '4' && d[5] == '5' && d[6] == '6' && d[7] == '7');
    assert(d[8] == '8' && d[9] == '9' && d[10] == 'a' && d[11] == 'b');
    assert(d[12] == 'c' && d[13] == 'd' && d[14] == 'e' && d[15] == 'f');
}

proof fn lemma_hex_len(b: Seq<u8>)
    ensures
        hex_of(b).len() == 2 * b.len(),
    decreases b.len(),
{
    if b.len() > 0 {
        lemma_hex_len(b.drop_last());
    }
}

/// Hex encoding loses nothing: different bytes give different text, so two
/// digests differ whenever the hashes they write differ.
pub proof fn lemma_hex_of_injective(a: Seq<u8>, b: Seq<u8>)
    requires
        hex_of(a) == hex_of(b),
    ensures
        a == b,
    decreases a.len(),
{
    lemma_hex_len(a);
    lemma_hex_len(b);
    if a.len() > 0 {
        let ha = hex_of(a);
        let n = ha.len() as int;
        lemma_hex_len(a.drop_last());
        lemma_hex_len(b.drop_last());
        let x = a.last();
        let y = b.last();
        assert(ha[n - 2] == hex_digits()[(x / 16) as int]);
        assert(hex_of(b)[n - 2] == hex_digits()[(y / 16) as int]);
        assert(ha[n - 1] == hex_digits()[(x % 16) as int]);
        assert(hex_of(b)[n - 1] == hex_digits()[(y % 16) as int]);
        lemma_hex_value((x / 16) as int);
        lemma_hex_value((y / 16) as int);
        lemma_hex_value((x % 16) as int);
        lemma_hex_value((y % 16) as int);
        assert(x == y);
        assert(hex_of(a.drop_last()) =~= ha.subrange(0, n - 2));
        assert(hex_of(b.drop_last()) =~= hex_of(b).subrange(0, n - 2));
        lemma_hex_of_injective(a.drop_last(), b.drop_last());
        assert(a =~= a.drop_last().push(x));
        assert(b =~= b.drop_last().push(y));
    } else {
        assert(a =~= b);
    }
}

/// Writes bytes as lowercase hex.
pub fn hex(b: &Vec<u8>) -> (r: String)
    ensures
        r@ == hex_of(b@),
{
    let digits = "0123456789abcdef";
    proof {
        reveal_strlit("0123456789abcdef");
        assert(digits@ =~= hex_digits());
    }
    let mut r = String::new();
    let mut i: usize = 0;
    proof {
        assert(b@.subrange(0, 0) =~= Seq::<u8>::empty());
    }
    while i < b.len()
        invariant
            i <= b.len(),
            digits@ == hex_digits(),
            r@ == hex_of(b@.subrange(0, i as int)),
        decreases b.len() - i,
    {
        let x: u8 = b[i];
        let hi: usize = (x / 16) as usize;
        let lo: usize = (x % 16) as usize;
        r.append(digits.substring_char(hi, hi + 1));
        r.append(digits.substring_char(lo, lo + 1));
        proof {
            let next = b@.subrange(0, i + 1);
            assert(next.drop_last() =~= b@.subrange(0, i as int));
            assert(next.last() == x);
            assert(r@ =~= hex_of(next));
        }
        i = i + 1;
    }
    proof {
        assert(b@.subrange(0, b@.len() as int) =~= b@);
    }
    r
}

/// The byte strings held by a list of buffers.
pub open spec fn buffers(c: Seq<Vec<u8>>) -> Seq<Seq<u8>> {
    c.map_values(|v: Vec<u8>| v@)
}

/// All byte strings of `c`, one after the other.
pub open spec fn concat_all(c: Seq<Seq<u8>>) -> Seq<u8>
    decreases c.len(),
{
    if c.len() == 0 {
        seq![]
    } else {
        concat_all(c.drop_last()) + c.last()
    }
}

/// What the hash is taken over: the file contents in order, then the
/// command's UTF-8 bytes.
pub open spec fn digest_input(contents: Seq<Seq<u8>>, cmd: Seq<char>) -> Seq<u8> {
    concat_all(contents) + encode_utf8(cmd)
}

/// The digest of file contents (already in path order) and a command.
pub open spec fn digest_of(contents: Seq<Seq<u8>>, cmd: Seq<char>) -> Seq<char> {
    hex_of(sha256_of(digest_input(contents, cmd)))
}

proof fn lemma_concat_all_append(x: Seq<Seq<u8>>, y: Seq<Seq<u8>>)
    ensures
        concat_all(x + y) == concat_all(x) + concat_all(y),
    decreases y.len(),
{
    if y.len() == 0 {
        assert(x + y =~= x);
        assert(concat_all(x) + concat_all(y) =~= concat_all(x));
    } else {
        lemma_concat_all_append(x, y.drop_last());
        assert((x + y).drop_last() =~= x + y.drop_last());
        assert(concat_all(x) + concat_all(y) =~= concat_all(x) + concat_all(y.drop_last())
            + y.last());
    }
}

/// Changing one byte of one hashed file, its length kept, changes the
/// bytes that the hash is taken over. That the digest then changes rests
/// on SHA-256 having no collision there.
pub proof fn lemma_changed_byte_changes_hashed_input(
    c: Seq<Seq<u8>>,
    i: int,
    j: int,
    b: u8,
    cmd: Seq<char>,
)
    requires
        0 <= i < c.len(),
        0 <= j < c[i].len(),
        b != c[i][j],
    ensures
        digest_input(c.update(i, c[i].update(j, b)), cmd) != digest_input(c, cmd),
{
    let d = c.update(i, c[i].update(j, b));
    let pre = c.subrange(0, i);
    let post = c.subrange(i + 1, c.len() as int);
    assert(c =~= pre + seq![c[i]] + post);
    assert(d =~= pre + seq![d[i]] + post);
    lemma_concat_all_append(pre + seq![c[i]], post);
    lemma_concat_all_append(pre, seq![c[i]]);
    lemma_concat_all_append(pre + seq![d[i]], post);
    lemma_concat_all_append(pre, seq![d[i]]);
    assert(concat_all(seq![c[i]]) =~= c[i]) by {
        let one = seq![c[i]];
        assert(one.drop_last() =~= Seq::<Seq<u8>>::empty());
        assert(concat_all(one.drop_last()) =~= Seq::<u8>::empty());
        assert(concat_all(one) == concat_all(one.drop_last()) + one.last());
    }
    assert(concat_all(seq![d[i]]) =~= d[i]) by {
        let one = seq![d[i]];
        assert(one.drop_last() =~= Seq::<Seq<u8>>::empty());
        assert(concat_all(one.drop_last()) =~= Seq::<u8>::empty());
        assert(concat_all(one) == concat_all(one.drop_last()) + one.last());
    }
    let at = concat_all(pre).len() + j;
    assert(digest_input(c, cmd)[at] == c[i][j]);
    assert(digest_input(d, cmd)[at] == b);
}

/// Changing the command changes the bytes that the hash is taken over.
/// That the digest then changes rests on SHA-256 having no collision there.
pub proof fn lemma_changed_command_changes_hashed_input(
    c: Seq<Seq<u8>>,
    cmd1: Seq<char>,
    cmd2: Seq<char>,
)
    requires
        cmd1 != cmd2,
    ensures
        digest_input(c, cmd1) != digest_input(c, cmd2),
{
    if digest_input(c, cmd1) == digest_input(c, cmd2) {
        let n = concat_all(c).len() as int;
        assert(encode_utf8(cmd1) =~= digest_input(c, cmd1).subrange(n, digest_input(c, cmd1).len() as int));
        assert(encode_utf8(cmd2) =~= digest_input(c, cmd2).subrange(n, digest_input(c, cmd2).len() as int));
        encode_utf8_decode_utf8(cmd1);
        encode_utf8_decode_utf8(cmd2);
        assert(decode_utf8(encode_utf8(cmd1)) == decode_utf8(encode_utf8(cmd2)));
    }
}

/// Two equal digests come from equal hashes. With the two lemmas above: a
/// changed byte of a file, or a changed command, leaves the digest as it
/// was only where SHA-256 maps two different inputs to one hash.
pub proof fn lemma_equal_digests_mean_equal_hashes(
    c1: Seq<Seq<u8>>,
    cmd1: Seq<char>,
    c2: Seq<Seq<u8>>,
    cmd2: Seq<char>,
)
    requires
        digest_of(c1, cmd1) == digest_of(c2, cmd2),
    ensures
        sha256_of(digest_input(c1, cmd1)) == sha256_of(digest_input(c2, cmd2)),
{
    lemma_hex_of_injective(sha256_of(digest_input(c1, cmd1)), sha256_of(digest_input(c2, cmd2)));
}

/// Computes `digest_of` on the contents of an entry's files, in path order,
/// and its command.
pub fn digest(contents: &Vec<Vec<u8>>, cmd: &str) -> (r: String)
    ensures
        r@ == digest_of(buffers(contents@), cmd@),
{
    let mut data: Vec<u8> = Vec::new();
    let mut i: usize = 0;
    proof {
        assert(buffers(contents@).subrange(0, 0) =~= Seq::<Seq<u8>>::empty());
    }
    while i < contents.len()
        invariant
            i <= contents.len(),
            data@ == concat_all(buffers(contents@).subrange(0, i as int)),
        decreases contents.len() - i,
    {
        let ghost before = data@;
        data.extend_from_slice(contents[i].as_slice());
        proof {
            let next = buffers(contents@).subrange(0, i + 1);
            assert(next.drop_last() =~= buffers(contents@).subrange(0, i as int));
            assert(next.last() == contents@[i as int]@);
            assert forall|j: int| 0 <= j < data@.len() implies data@[j] == (before
                + contents@[i as int]@)[j] by {
                if j >= before.len() {
                    assert(data@[j] == contents@[i as int]@[j - before.len()]);
                }
            }
            assert(data@ =~= concat_all(next));
        }
        i = i + 1;
    }
    let ghost files_part = data@;
    data.extend_from_slice(cmd.as_bytes());
    proof {
        assert(buffers(contents@).subrange(0, contents@.len() as int) =~= buffers(contents@));
        assert forall|j: int| 0 <= j < data@.len() implies data@[j] == (files_part + encode_utf8(
            cmd@,
        ))[j] by {
            if j >= files_part.len() {
                assert(data@[j] == encode_utf8(cmd@)[j - files_part.len()]);
            }
        }
        assert(data@ =~= digest_input(buffers(contents@), cmd@));
    }
    let h = sha256(&data);
    hex(&h)
}

} // verus!
