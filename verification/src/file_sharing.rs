//! Files as they travel over the channel: cut into chunks no longer than
//! the transport takes, and put together again on the other side.

use crate::b64::{
    all_standard, base64_standard, encode_standard, padded_length, MAX_BASE64_INPUT,
};
use vstd::prelude::*;
use vstd::string::*;

verus! {

/// The views of a list of byte strings.
pub open spec fn byte_views(v: Seq<Vec<u8>>) -> Seq<Seq<u8>> {
    v.map_values(|b: Vec<u8>| b@)
}

/// A payload cut into pieces of `size` bytes; the last piece holds what is
/// left and may be shorter. There is always one piece, an empty one for an
/// empty payload.
pub open spec fn pieces(p: Seq<u8>, size: nat) -> Seq<Seq<u8>>
    decreases p.len(),
{
    if size == 0 || p.len() <= size {
        seq![p]
    } else {
        seq![p.take(size as int)] + pieces(p.skip(size as int), size)
    }
}

/// Byte strings put one behind the other.
pub open spec fn joined(parts: Seq<Seq<u8>>) -> Seq<u8>
    decreases parts.len(),
{
    if parts.len() == 0 {
        Seq::empty()
    } else {
        parts[0] + joined(parts.skip(1))
    }
}

/// A payload as a file is cut for sending: no piece for an empty payload.
pub open spec fn file_pieces(p: Seq<u8>, size: nat) -> Seq<Seq<u8>> {
    if p.len() == 0 {
        Seq::empty()
    } else {
        pieces(p, size)
    }
}

/// The pieces of a payload, joined, are the payload.
pub proof fn lemma_joined_pieces(p: Seq<u8>, size: nat)
    ensures
        joined(pieces(p, size)) == p,
        joined(file_pieces(p, size)) == p,
        pieces(p, size).len() >= 1,
    decreases p.len(),
{
    let ps = pieces(p, size);
    if size == 0 || p.len() <= size {
        assert(ps.skip(1) =~= Seq::<Seq<u8>>::empty());
        assert(joined(ps.skip(1)) =~= Seq::<u8>::empty());
        assert(joined(ps) =~= p);
    } else {
        let rest = p.skip(size as int);
        lemma_joined_pieces(rest, size);
        assert(ps.skip(1) =~= pieces(rest, size));
        assert(p.take(size as int) + rest =~= p);
    }
    if p.len() == 0 {
        assert(joined(file_pieces(p, size)) =~= p);
    }
}

/// No piece is longer than `size`, and only the last may be shorter.
pub proof fn lemma_piece_lengths(p: Seq<u8>, size: nat, i: int)
    requires
        size > 0,
        0 <= i < pieces(p, size).len(),
    ensures
        pieces(p, size)[i].len() <= size,
        i + 1 < pieces(p, size).len() ==> pieces(p, size)[i].len() == size,
    decreases p.len(),
{
    if p.len() > size {
        let rest = p.skip(size as int);
        assert(pieces(p, size).skip(1) =~= pieces(rest, size));
        if i > 0 {
            lemma_piece_lengths(rest, size, i - 1);
            assert(pieces(p, size)[i] == pieces(rest, size)[i - 1]);
        }
    }
}

pub(crate) fn cut(payload: &[u8], size: usize) -> (out: Vec<Vec<u8>>)
    requires
        size > 0,
    ensures
        byte_views(out@) == pieces(payload@, size as nat),
        out@.len() >= 1,
{
    let mut out: Vec<Vec<u8>> = Vec::new();
    let mut start: usize = 0;
    assert(payload@.skip(0) =~= payload@);
    assert(byte_views(out@) + pieces(payload@.skip(0), size as nat) =~= pieces(
        payload@,
        size as nat,
    ));
    while payload.len() - start > size
        invariant
            size > 0,
            0 <= start <= payload@.len(),
            byte_views(out@) + pieces(payload@.skip(start as int), size as nat) == pieces(
                payload@,
                size as nat,
            ),
        decreases payload@.len() - start,
    {
        let ghost rest = payload@.skip(start as int);
        let ghost before = byte_views(out@);
        let piece = vstd::slice::slice_to_vec(vstd::slice::slice_subrange(payload, start, start + size));
        assert(piece@ =~= rest.take(size as int));
        out.push(piece);
        proof {
            assert(rest.skip(size as int) =~= payload@.skip(start + size));
            assert(byte_views(out@) =~= before.push(rest.take(size as int)));
            assert(byte_views(out@) + pieces(payload@.skip(start + size), size as nat) =~= before
                + pieces(rest, size as nat));
        }
        start = start + size;
    }
    let ghost rest = payload@.skip(start as int);
    let ghost before = byte_views(out@);
    let piece = vstd::slice::slice_to_vec(vstd::slice::slice_subrange(payload, start, payload.len()));
    assert(piece@ =~= rest);
    out.push(piece);
    proof {
        assert(byte_views(out@) =~= before.push(rest));
        assert(byte_views(out@) =~= before + pieces(rest, size as nat));
    }
    out
}

/// What is known of a file that was picked for sending.
#[derive(Debug)]
pub struct FileInfo {
    pub name: String,
    pub size: u64,
    pub file_type: String,
    pub data: Vec<u8>,
}

/// The text that a data URL of the given type and content consists of.
pub open spec fn data_url_text(file_type: Seq<char>, data: Seq<u8>) -> Seq<char> {
    "data:"@ + file_type + ";base64,"@ + base64_standard(data)
}

/// Whether `text` starts with `prefix`.
pub open spec fn starts_with(text: Seq<char>, prefix: Seq<char>) -> bool {
    prefix.len() <= text.len() && text.take(prefix.len() as int) == prefix
}

impl FileInfo {
    /// Whether the file's type is an image type.
    pub fn is_image(&self) -> (b: bool)
        ensures
            b == starts_with(self.file_type@, "image/"@),
    {
        let prefix = "image/";
        proof {
            reveal_strlit("image/");
        }
        let text = self.file_type.as_str();
        if text.unicode_len() < 6 {
            return false;
        }
        let mut i: usize = 0;
        while i < 6
            invariant
                0 <= i <= 6,
                prefix@ == "image/"@,
                prefix@.len() == 6,
                text@.len() >= 6,
                text@ == self.file_type@,
                forall|j: int| 0 <= j < i ==> text@[j] == prefix@[j],
            decreases 6 - i,
        {
            if text.get_char(i) != prefix.get_char(i) {
                assert(text@.take(6)[i as int] != prefix@[i as int]);
                return false;
            }
            i = i + 1;
        }
        assert(text@.take(6) =~= prefix@);
        true
    }

    /// The file's content as a data URL. There is none for a content over
    /// [`MAX_BASE64_INPUT`] bytes long.
    pub fn get_data_url(&self) -> (r: Option<String>)
        ensures
            match r {
                Some(url) => {
                    &&& self.data@.len() <= MAX_BASE64_INPUT
                    &&& url@ == data_url_text(self.file_type@, self.data@)
                    &&& all_standard(base64_standard(self.data@))
                    &&& base64_standard(self.data@).len() == padded_length(self.data@.len())
                },
                None => self.data@.len() > MAX_BASE64_INPUT,
            },
    {
        if self.data.len() > MAX_BASE64_INPUT {
            return None;
        }
        let encoded = encode_standard(self.data.as_slice());
        let url = String::from_str("data:");
        let url = url.concat(self.file_type.as_str());
        let url = url.concat(";base64,");
        let url = url.concat(encoded.as_str());
        Some(url)
    }
}

/// A file is over the size that was allowed.
#[derive(Clone, Copy, Debug, PartialEq, Eq, Structural)]
pub struct FileTooLarge {
    /// The file's size in bytes.
    pub size: u64,
    /// The limit in megabytes.
    pub max_size_mb: u64,
}

/// What is done with files on their way to the channel and back.
pub struct FileHandler;

impl FileHandler {
    /// Accepts a file of `size` bytes where that is at most `max_size_mb`
    /// megabytes.
    pub fn validate_file(size: u64, max_size_mb: u64) -> (r: Result<(), FileTooLarge>)
        ensures
            r is Err <==> size > max_size_mb * 1024 * 1024,
            r matches Err(e) ==> e == (FileTooLarge { size, max_size_mb }),
    {
        let limit: u128 = (max_size_mb as u128) * 1024 * 1024;
        if size as u128 > limit {
            Err(FileTooLarge { size, max_size_mb })
        } else {
            Ok(())
        }
    }

    /// The file's content cut into pieces of `chunk_size` bytes.
    pub fn chunk_file(file_info: &FileInfo, chunk_size: usize) -> (chunks: Vec<Vec<u8>>)
        requires
            chunk_size > 0,
        ensures
            byte_views(chunks@) == file_pieces(file_info.data@, chunk_size as nat),
    {
        if file_info.data.len() == 0 {
            let chunks: Vec<Vec<u8>> = Vec::new();
            assert(byte_views(chunks@) =~= file_pieces(file_info.data@, chunk_size as nat));
            chunks
        } else {
            cut(file_info.data.as_slice(), chunk_size)
        }
    }

    /// The pieces put together again.
    pub fn reconstruct_file(chunks: Vec<Vec<u8>>) -> (data: Vec<u8>)
        ensures
            data@ == joined(byte_views(chunks@)),
    {
        let ghost parts = byte_views(chunks@);
        let mut data: Vec<u8> = Vec::new();
        let mut i: usize = 0;
        assert(parts.skip(0) =~= parts);
        assert(data@ + joined(parts.skip(0)) =~= joined(parts));
        while i < chunks.len()
            invariant
                0 <= i <= chunks@.len(),
                parts == byte_views(chunks@),
                data@ + joined(parts.skip(i as int)) == joined(parts),
            decreases chunks@.len() - i,
        {
            let ghost before = data@;
            let ghost rest = parts.skip(i as int);
            data.extend_from_slice(chunks[i].as_slice());
            proof {
                assert(data@ =~= before + rest[0]);
                assert(rest.skip(1) =~= parts.skip(i + 1));
                assert(data@ + joined(parts.skip(i + 1)) =~= before + joined(rest));
            }
            i = i + 1;
        }
        assert(joined(parts.skip(i as int)) =~= Seq::<u8>::empty());
        assert(data@ =~= joined(parts));
        data
    }
}

} // verus!
