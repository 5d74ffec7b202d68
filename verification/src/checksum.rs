//! The Internet checksum: the one's-complement sum of 16-bit big-endian words.

use vstd::prelude::*;

verus! {

/// Longest buffer, in bytes, that is handed to the checksum: one IP datagram.
pub const MAX_CHECKSUM_LEN: usize = 65535;

/// Number of 16-bit words in `data`, a trailing odd byte counted as one.
pub open spec fn word_count(data: Seq<u8>) -> nat {
    ((data.len() + 1) / 2) as nat
}

/// The `i`-th big-endian word of `data`. A trailing odd byte is the high half
/// of a word whose low half is zero.
pub open spec fn word_at(data: Seq<u8>, i: int) -> nat {
    (data[2 * i] as nat) * 256 + (if 2 * i + 1 < data.len() {
        data[2 * i + 1] as nat
    } else {
        0
    })
}

/// Sum of the first `n` words of `data`, the word at index `skip` left out.
pub open spec fn word_sum(data: Seq<u8>, skip: int, n: nat) -> nat
    decreases n,
{
    if n == 0 {
        0
    } else {
        word_sum(data, skip, (n - 1) as nat) + (if n - 1 == skip {
            0
        } else {
            word_at(data, n - 1)
        })
    }
}

/// End-around carry: whatever lies above the low 16 bits is added back into
/// them until nothing lies above.
pub open spec fn fold16(x: nat) -> nat
    decreases x,
{
    if x < 0x10000 {
        x
    } else {
        fold16(x / 0x10000 + x % 0x10000)
    }
}

/// The checksum of `data` with the word at index `skip` read as zero: the
/// complement of the folded word sum. Of no bytes it is zero.
pub open spec fn internet_checksum(data: Seq<u8>, skip: int) -> nat {
    if data.len() == 0 {
        0
    } else {
        (0xFFFF - fold16(word_sum(data, skip, word_count(data)))) as nat
    }
}

/// A message validates when the folded sum of all its words, the checksum
/// field among them, is all ones.
pub open spec fn checksum_valid(data: Seq<u8>) -> bool {
    fold16(word_sum(data, -1, word_count(data))) == 0xFFFF
}

/// `fold16` in closed form: zero stays zero, anything else lands in
/// `1..=0xFFFF` and keeps its residue modulo `0xFFFF`.
pub proof fn lemma_fold16_closed_form(x: nat)
    ensures
        fold16(x) == (if x == 0 {
            0
        } else {
            (x - 1) % 0xFFFF + 1
        }),
    decreases x,
{
    if x >= 0x10000 {
        let y = x / 0x10000 + x % 0x10000;
        lemma_fold16_closed_form(y);
        assert(x - 1 == 0xFFFF * (x / 0x10000) + (y - 1));
        vstd::arithmetic::div_mod::lemma_mod_multiples_vanish(
            (x / 0x10000) as int,
            y - 1,
            0xFFFF,
        );
    }
}

/// Folding may be done early: folding a partial sum before adding to it does
/// not change the folded total.
pub proof fn lemma_fold16_add(a: nat, b: nat)
    ensures
        fold16(fold16(a) + b) == fold16(a + b),
        fold16(a) <= 0xFFFF,
{
    lemma_fold16_closed_form(a);
    lemma_fold16_closed_form(a + b);
    lemma_fold16_closed_form(fold16(a) + b);
    if a > 0 {
        vstd::arithmetic::div_mod::lemma_add_mod_noop(a - 1, b as int, 0xFFFF);
        vstd::arithmetic::div_mod::lemma_add_mod_noop((a - 1) % 0xFFFF, b as int, 0xFFFF);
        vstd::arithmetic::div_mod::lemma_mod_twice(a - 1, 0xFFFF);
    }
}

/// The sum that leaves a word out does not depend on what that word holds.
pub proof fn lemma_word_sum_ignores_skipped(a: Seq<u8>, b: Seq<u8>, skip: int, n: nat)
    requires
        a.len() == b.len(),
        n <= word_count(a),
        forall|i: int| 0 <= i < a.len() && i != 2 * skip && i != 2 * skip + 1 ==> a[i] == b[i],
    ensures
        word_sum(a, skip, n) == word_sum(b, skip, n),
    decreases n,
{
    if n > 0 {
        lemma_word_sum_ignores_skipped(a, b, skip, (n - 1) as nat);
    }
}

/// Leaving a word out lowers the sum by that word.
pub proof fn lemma_word_sum_with_skipped(data: Seq<u8>, skip: int, n: nat)
    requires
        0 <= skip < n,
    ensures
        word_sum(data, -1, n) == word_sum(data, skip, n) + word_at(data, skip),
    decreases n,
{
    if n - 1 == skip {
        lemma_word_sum_unskipped(data, skip, (n - 1) as nat);
    } else {
        lemma_word_sum_with_skipped(data, skip, (n - 1) as nat);
    }
}

/// A word that lies past the summed range is left out either way.
pub proof fn lemma_word_sum_unskipped(data: Seq<u8>, skip: int, n: nat)
    requires
        skip < 0 || n <= skip,
    ensures
        word_sum(data, skip, n) == word_sum(data, -1, n),
    decreases n,
{
    if n > 0 {
        lemma_word_sum_unskipped(data, skip, (n - 1) as nat);
    }
}

/// A message that carries, in the word at `skip`, the checksum taken with that
/// word left out, validates.
pub proof fn lemma_stored_checksum_validates(data: Seq<u8>, skip: int)
    requires
        0 <= skip,
        2 * skip + 1 < data.len(),
        word_at(data, skip) == internet_checksum(data, skip),
    ensures
        checksum_valid(data),
{
    let n = word_count(data);
    let rest = word_sum(data, skip, n);
    lemma_word_sum_with_skipped(data, skip, n);
    lemma_fold16_closed_form(rest);
    lemma_fold16_closed_form(rest + word_at(data, skip));
    if rest > 0 {
        assert(rest + word_at(data, skip) - 1 == 0xFFFF * ((rest - 1) / 0xFFFF) + 0xFFFF - 1) by {
            vstd::arithmetic::div_mod::lemma_fundamental_div_mod(rest - 1, 0xFFFF);
        }
        vstd::arithmetic::div_mod::lemma_mod_multiples_vanish(
            (rest - 1) / 0xFFFF,
            0xFFFF - 1,
            0xFFFF,
        );
    }
}

/// `nex_packet::util::checksum`: the Internet checksum of `data`, the word at
/// index `skipword` read as zero. The outside code sums the words in 32 bits,
/// which a buffer of at most `MAX_CHECKSUM_LEN` bytes cannot overflow.
#[verifier::external_body]
pub(crate) fn checksum(data: &[u8], skipword: usize) -> (sum: u16)
    requires
        data@.len() <= MAX_CHECKSUM_LEN,
    ensures
        sum == internet_checksum(data@, skipword as int),
{
    nex_packet::util::checksum(data, skipword)
}

/// Adds one word to a folded sum and folds again.
fn fold_add(acc: u32, word: u32, Ghost(sum): Ghost<nat>) -> (next: u32)
    requires
        acc == fold16(sum),
        word <= 0xFFFF,
    ensures
        next == fold16(sum + word as nat),
        next <= 0xFFFF,
{
    proof {
        lemma_fold16_add(sum, word as nat);
        lemma_fold16_closed_form(acc as nat + word as nat);
    }
    let total: u32 = acc + word;
    if total >= 0x10000 {
        total - 0xFFFF
    } else {
        total
    }
}

/// Whether `data`, read as a message that holds its own checksum, validates.
pub fn verify_checksum(data: &[u8]) -> (ok: bool)
    ensures
        ok == checksum_valid(data@),
{
    let n: usize = data.len();
    let mut acc: u32 = 0;
    let mut i: usize = 0;
    while n - i >= 2
        invariant
            n == data@.len(),
            i <= n,
            i % 2 == 0,
            acc == fold16(word_sum(data@, -1, (i / 2) as nat)),
        decreases n - i,
    {
        let word: u32 = (data[i] as u32) * 256 + (data[i + 1] as u32);
        assert(word == word_at(data@, (i / 2) as int));
        acc = fold_add(acc, word, Ghost(word_sum(data@, -1, (i / 2) as nat)));
        i = i + 2;
    }
    if i < n {
        let word: u32 = (data[i] as u32) * 256;
        assert(word == word_at(data@, (i / 2) as int));
        acc = fold_add(acc, word, Ghost(word_sum(data@, -1, (i / 2) as nat)));
    }
    acc == 0xFFFF
}

} // verus!
