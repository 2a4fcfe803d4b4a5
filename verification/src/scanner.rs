//! Track catalog support: recognizing playable audio files by extension.
//!
//! The directory walk itself is filesystem work done by the outer layer;
//! the per-path decision of what counts as an audio file is verified here.

use vstd::prelude::*;
use vstd::string::StringSliceAdditionalSpecFns;

verus! {

/// Does `suf` end `s`?
pub open spec fn suffix_of(s: Seq<u8>, suf: Seq<u8>) -> bool {
    s.len() >= suf.len() && s.subrange(s.len() - suf.len(), s.len() as int) == suf
}

/// The recognized audio file extensions, as UTF-8 bytes:
/// ".mp3", ".wav", ".flac", ".m4a" and ".ogg".
pub open spec fn audio_extensions() -> Seq<Seq<u8>> {
    seq![
        seq![46u8, 109u8, 112u8, 51u8],
        seq![46u8, 119u8, 97u8, 118u8],
        seq![46u8, 102u8, 108u8, 97u8, 99u8],
        seq![46u8, 109u8, 52u8, 97u8],
        seq![46u8, 111u8, 103u8, 103u8],
    ]
}

/// A path names an audio file when it ends in one of the recognized
/// extensions.
pub open spec fn is_audio_path(s: Seq<u8>) -> bool {
    exists|i: int|
        0 <= i < audio_extensions().len() && suffix_of(s, #[trigger] audio_extensions()[i])
}

/// Byte-wise suffix test.
fn ends_with_bytes(s: &[u8], suf: &[u8]) -> (r: bool)
    ensures
        r == suffix_of(s@, suf@),
{
    let n = s.len();
    let m = suf.len();
    if m > n {
        return false;
    }
    let mut i: usize = 0;
    while i < m
        invariant
            m <= n,
            i <= m,
            n == s@.len(),
            m == suf@.len(),
            forall|j: int| 0 <= j < i ==> s@[n - m + j] == suf@[j],
        decreases m - i,
    {
        if s[n - m + i] != suf[i] {
            proof {
                assert(s@.subrange(n - m, n as int)[i as int] == s@[n - m + i]);
            }
            return false;
        }
        i = i + 1;
    }
    proof {
        assert(s@.subrange(n - m, n as int) =~= suf@);
    }
    true
}

/// The extension list as executable byte vectors, matching
/// `audio_extensions()` element for element.
fn audio_extension_list() -> (v: Vec<Vec<u8>>)
    ensures
        v@.len() == audio_extensions().len(),
        forall|i: int| 0 <= i < v@.len() ==> (#[trigger] v@[i])@ == audio_extensions()[i],
{
    let mut v: Vec<Vec<u8>> = Vec::new();
    let mut e: Vec<u8> = Vec::new();
    e.push(46);
    e.push(109);
    e.push(112);
    e.push(51);
    proof {
        assert(e@ =~= audio_extensions()[0]);
    }
    v.push(e);
    let mut e: Vec<u8> = Vec::new();
    e.push(46);
    e.push(119);
    e.push(97);
    e.push(118);
    proof {
        assert(e@ =~= audio_extensions()[1]);
    }
    v.push(e);
    let mut e: Vec<u8> = Vec::new();
    e.push(46);
    e.push(102);
    e.push(108);
    e.push(97);
    e.push(99);
    proof {
        assert(e@ =~= audio_extensions()[2]);
    }
    v.push(e);
    let mut e: Vec<u8> = Vec::new();
    e.push(46);
    e.push(109);
    e.push(52);
    e.push(97);
    proof {
        assert(e@ =~= audio_extensions()[3]);
    }
    v.push(e);
    let mut e: Vec<u8> = Vec::new();
    e.push(46);
    e.push(111);
    e.push(103);
    e.push(103);
    proof {
        assert(e@ =~= audio_extensions()[4]);
    }
    v.push(e);
    v
}

/// Supplies the ordered list of playable file paths; the walk lives in the
/// outer layer, the audio-file test here.
pub struct AudioFileScanner;

impl AudioFileScanner {
    /// Is this path an audio file, judged by its extension bytes?
    pub fn is_audio_file(path: &str) -> (r: bool)
        ensures
            r == is_audio_path(path.spec_bytes()),
    {
        let b = path.as_bytes();
        let exts = audio_extension_list();
        let mut i: usize = 0;
        while i < exts.len()
            invariant
                exts@.len() == audio_extensions().len(),
                forall|k: int|
                    0 <= k < exts@.len() ==> (#[trigger] exts@[k])@ == audio_extensions()[k],
                b@ == path.spec_bytes(),
                i <= exts@.len(),
                forall|j: int| 0 <= j < i ==> !suffix_of(b@, #[trigger] audio_extensions()[j]),
            decreases exts@.len() - i,
        {
            if ends_with_bytes(b, exts[i].as_slice()) {
                proof {
                    assert(suffix_of(path.spec_bytes(), audio_extensions()[i as int]));
                }
                return true;
            }
            i = i + 1;
        }
        false
    }
}

} // verus!
