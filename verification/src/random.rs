use vstd::prelude::*;
use rand::rngs::OsRng;
use rand::RngCore;

verus! {

/// The operating system's random source could not give bytes.
#[derive(Clone, Copy, PartialEq, Eq, Structural, Debug)]
pub struct RandomUnavailable;

/// Calls `RngCore::try_fill_bytes` on `rand::rngs::OsRng` (the operating
/// system's random source, through `getrandom`) to fill a buffer of `n`
/// bytes. On success the whole buffer is filled, so `n` bytes come back;
/// which bytes is not stated, as they are random. On an error of the source
/// nothing comes back; the call itself does not panic.
#[verifier::external_body]
fn draw_bytes(n: usize) -> (r: Option<Vec<u8>>)
    ensures
        r matches Some(v) ==> v@.len() == n,
{
    let mut v: Vec<u8> = vec![0; n];
    match OsRng.try_fill_bytes(&mut v) {
        Ok(()) => Some(v),
        Err(_) => None,
    }
}

/// Copies the first `bufsize` bytes of `drawn` into `buf`; the rest of
/// `buf` keeps its bytes.
pub fn store_random(buf: &mut [u8], bufsize: usize, drawn: &[u8])
    requires
        bufsize <= old(buf)@.len(),
        bufsize <= drawn@.len(),
    ensures
        final(buf)@ == drawn@.subrange(0, bufsize as int) + old(buf)@.subrange(
            bufsize as int,
            old(buf)@.len() as int,
        ),
{
    let mut loop_: usize = 0;
    while loop_ < bufsize
        invariant
            bufsize <= buf@.len(),
            bufsize <= drawn@.len(),
            loop_ <= bufsize,
            buf@.len() == old(buf)@.len(),
            forall|i: int| 0 <= i < loop_ ==> #[trigger] buf@[i] == drawn@[i],
            forall|i: int| loop_ <= i < buf@.len() ==> #[trigger] buf@[i] == old(buf)@[i],
        decreases bufsize - loop_,
    {
        buf[loop_] = drawn[loop_];
        loop_ = loop_ + 1;
    }
    assert(buf@ =~= drawn@.subrange(0, bufsize as int) + old(buf)@.subrange(
        bufsize as int,
        old(buf)@.len() as int,
    ));
}

/// Puts `bufsize` bytes drawn from the operating system's random source
/// into the first `bufsize` bytes of `buf` (through `store_random`); the
/// rest of `buf` keeps its bytes. When the source fails, `buf` is unchanged
/// and the error comes back.
pub fn sdel_random_buf(bufsize: usize, buf: &mut [u8]) -> (r: Result<(), RandomUnavailable>)
    requires
        bufsize <= old(buf)@.len(),
    ensures
        final(buf)@.len() == old(buf)@.len(),
        forall|i: int| bufsize <= i < old(buf)@.len() ==> #[trigger] final(buf)@[i] == old(buf)@[i],
        r is Err ==> final(buf)@ == old(buf)@,
{
    match draw_bytes(bufsize) {
        Some(drawn) => {
            store_random(buf, bufsize, drawn.as_slice());
            Ok(())
        },
        None => Err(RandomUnavailable),
    }
}

/// The byte that separates the parts of a path.
pub const DIR_SEPARATOR: u8 = 0x2F;

/// The dot, which renaming keeps in place.
pub const DOT: u8 = 0x2E;

/// A lower-case ASCII letter.
pub open spec fn is_lower(b: u8) -> bool {
    0x61 <= b <= 0x7A
}

/// Index `i` of `name` lies after its last separator.
pub open spec fn in_basename(name: Seq<u8>, i: int) -> bool {
    &&& 0 <= i < name.len()
    &&& forall|j: int| i <= j < name.len() ==> #[trigger] name[j] != DIR_SEPARATOR
}

/// The part of `name` after its last separator is ASCII.
pub open spec fn basename_is_ascii(name: Seq<u8>) -> bool {
    forall|i: int| #[trigger] in_basename(name, i) ==> name[i] < 0x80
}

/// `new` is `old` with every byte after the last separator that is not a
/// dot turned into a lower-case letter, and nothing else changed.
pub open spec fn is_randomized_name(old: Seq<u8>, new: Seq<u8>) -> bool {
    &&& new.len() == old.len()
    &&& forall|i: int|
        #![trigger new[i]]
        0 <= i < old.len() ==> if in_basename(old, i) {
            if old[i] == DOT {
                new[i] == DOT
            } else {
                is_lower(new[i])
            }
        } else {
            new[i] == old[i]
        }
}

/// The lower-case letter a random byte `r` stands for.
pub open spec fn letter_of_spec(r: u8) -> u8 {
    (r % 26 + 97) as u8
}

/// The lower-case letter that the random byte `r` stands for: `r` modulo
/// 26 past `a`.
pub fn letter_of(r: u8) -> (b: u8)
    ensures
        b == letter_of_spec(r),
        is_lower(b),
{
    (r % 26) + 97
}

/// `new` is `old` with every byte after the last separator that is not a
/// dot replaced by the letter of the byte of `drawn` at the same index, and
/// nothing else changed.
pub open spec fn is_name_randomized_with(old: Seq<u8>, new: Seq<u8>, drawn: Seq<u8>) -> bool {
    &&& new.len() == old.len()
    &&& forall|i: int|
        #![trigger new[i]]
        0 <= i < old.len() ==> if in_basename(old, i) && old[i] != DOT {
            new[i] == letter_of_spec(drawn[i])
        } else {
            new[i] == old[i]
        }
}

/// Index of the first byte after the last separator of `name` (0 when it
/// has none).
pub fn basename_start(name: &[u8]) -> (start: usize)
    ensures
        start <= name@.len(),
        forall|i: int| 0 <= i < name@.len() ==> (in_basename(name@, i) <==> start <= i),
{
    let mut start = name.len();
    while start > 0 && name[start - 1] != DIR_SEPARATOR
        invariant
            start <= name@.len(),
            forall|j: int| start <= j < name@.len() ==> #[trigger] name@[j] != DIR_SEPARATOR,
        decreases start,
    {
        start = start - 1;
    }
    assert forall|i: int| 0 <= i < name@.len() implies (in_basename(name@, i) <==> start <= i) by {
        if i < start {
            assert(name@[start - 1] == DIR_SEPARATOR);
        }
    }
    start
}

/// Replaces each byte of the file name part of `filename` (after the last
/// separator) that is not a dot by the letter of the byte of `drawn` at the
/// same index.
pub fn randomize_with(filename: &mut [u8], drawn: &[u8])
    requires
        old(filename)@.len() <= drawn@.len(),
    ensures
        is_name_randomized_with(old(filename)@, final(filename)@, drawn@),
{
    let start = basename_start(filename);
    let mut i = filename.len();
    while i > start
        invariant
            start <= i <= filename@.len(),
            filename@.len() == old(filename)@.len(),
            filename@.len() <= drawn@.len(),
            forall|k: int| 0 <= k < old(filename)@.len() ==> (in_basename(old(filename)@, k) <==> start <= k),
            forall|k: int| 0 <= k < i ==> #[trigger] filename@[k] == old(filename)@[k],
            forall|k: int|
                #![trigger filename@[k]]
                i <= k < filename@.len() ==> if old(filename)@[k] != DOT {
                    filename@[k] == letter_of_spec(drawn@[k])
                } else {
                    filename@[k] == old(filename)@[k]
                },
        decreases i,
    {
        i = i - 1;
        if filename[i] != DOT {
            filename[i] = letter_of(drawn[i]);
        }
    }
}

/// A name randomized with any drawn bytes is a randomized name: directory
/// part and dots kept, the rest lower-case letters.
pub proof fn lemma_randomized_with_is_randomized(old: Seq<u8>, new: Seq<u8>, drawn: Seq<u8>)
    requires
        is_name_randomized_with(old, new, drawn),
    ensures
        is_randomized_name(old, new),
{
    assert forall|i: int| #![trigger new[i]] 0 <= i < old.len() implies if in_basename(old, i) {
        if old[i] == DOT {
            new[i] == DOT
        } else {
            is_lower(new[i])
        }
    } else {
        new[i] == old[i]
    } by {
        let r = drawn[i];
        assert(letter_of_spec(r) >= 97 && letter_of_spec(r) <= 122);
    }
}

/// Replaces each byte of the file name part of `filename` (after the last
/// separator) that is not a dot by a random lower-case letter, drawn from
/// the operating system's random source (through `randomize_with`). When
/// the source fails, `filename` is unchanged and the error comes back.
pub fn sdel_random_filename(filename: &mut [u8]) -> (r: Result<(), RandomUnavailable>)
    requires
        basename_is_ascii(old(filename)@),
    ensures
        r is Ok ==> is_randomized_name(old(filename)@, final(filename)@),
        r is Err ==> final(filename)@ == old(filename)@,
{
    match draw_bytes(filename.len()) {
        Some(drawn) => {
            randomize_with(filename, drawn.as_slice());
            proof {
                lemma_randomized_with_is_randomized(old(filename)@, filename@, drawn@);
            }
            Ok(())
        },
        None => Err(RandomUnavailable),
    }
}

/// Whether the part of `name` after its last separator is ASCII, which
/// `sdel_random_filename` asks of the names it renames.
pub fn has_ascii_basename(name: &[u8]) -> (r: bool)
    ensures
        r == basename_is_ascii(name@),
{
    let start = basename_start(name);
    let mut i = start;
    while i < name.len()
        invariant
            start <= i <= name@.len(),
            forall|k: int| 0 <= k < name@.len() ==> (in_basename(name@, k) <==> start <= k),
            forall|k: int| start <= k < i ==> #[trigger] name@[k] < 0x80,
        decreases name.len() - i,
    {
        if name[i] >= 0x80 {
            assert(in_basename(name@, i as int));
            return false;
        }
        i = i + 1;
    }
    true
}

/// A renamed name has the same directory part, so the same file name part,
/// and that part is ASCII: it can be renamed again.
pub proof fn lemma_randomized_name_basename(a: Seq<u8>, b: Seq<u8>)
    requires
        is_randomized_name(a, b),
    ensures
        forall|i: int| 0 <= i < a.len() ==> (in_basename(a, i) <==> #[trigger] in_basename(b, i)),
        basename_is_ascii(b),
{
    assert forall|i: int| 0 <= i < a.len() implies (in_basename(a, i) <==> #[trigger] in_basename(b, i)) by {
        if in_basename(a, i) {
            assert forall|j: int| i <= j < b.len() implies #[trigger] b[j] != DIR_SEPARATOR by {
                assert(in_basename(a, j));
                assert(b[j] == DOT || is_lower(b[j]));
            }
        } else {
            let j = choose|j: int| i <= j < a.len() && a[j] == DIR_SEPARATOR;
            assert(!in_basename(a, j));
            assert(b[j] == a[j]);
        }
    }
    assert forall|i: int| #[trigger] in_basename(b, i) implies b[i] < 0x80 by {
        assert(in_basename(a, i));
    }
}

/// Renaming twice is a renaming of the first name: the directory part stays,
/// dots stay, and the rest are letters.
pub proof fn lemma_randomized_name_transitive(a: Seq<u8>, b: Seq<u8>, c: Seq<u8>)
    requires
        is_randomized_name(a, b),
        is_randomized_name(b, c),
    ensures
        is_randomized_name(a, c),
{
    lemma_randomized_name_basename(a, b);
}

} // verus!
