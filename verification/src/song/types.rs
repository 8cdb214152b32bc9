//! What a song search asks for and which kinds of file it accepts.
use vstd::prelude::*;

use crate::text::{str_eq, to_lowercase};

verus! {

/// A song to look for.
#[derive(Debug, Clone)]
pub struct SongQuery {
    pub title: String,
    pub artist: String,
    pub album: Option<String>,
    pub duration_secs: Option<u32>,
    pub min_bitrate_kbps: Option<u32>,
}

/// A kind of audio file, by its extension.
#[derive(Debug, PartialEq, Eq, Hash)]
pub enum FileType {
    Mp3,
    Flac,
    Wav,
    Aac,
    M4a,
    Ogg,
    Alac,
    Aiff,
    Opus,
    Other(String),
}

impl Clone for FileType {
    fn clone(&self) -> (r: Self)
        ensures
            r == *self,
    {
        match self {
            FileType::Mp3 => FileType::Mp3,
            FileType::Flac => FileType::Flac,
            FileType::Wav => FileType::Wav,
            FileType::Aac => FileType::Aac,
            FileType::M4a => FileType::M4a,
            FileType::Ogg => FileType::Ogg,
            FileType::Alac => FileType::Alac,
            FileType::Aiff => FileType::Aiff,
            FileType::Opus => FileType::Opus,
            FileType::Other(ext) => FileType::Other(ext.clone()),
        }
    }
}

/// A kind of audio file, with the characters of an unknown extension.
#[verifier::ext_equal]
pub enum FileKind {
    Mp3,
    Flac,
    Wav,
    Aac,
    M4a,
    Ogg,
    Alac,
    Aiff,
    Opus,
    Other(Seq<char>),
}

impl View for FileType {
    type V = FileKind;

    open spec fn view(&self) -> FileKind {
        match self {
            FileType::Mp3 => FileKind::Mp3,
            FileType::Flac => FileKind::Flac,
            FileType::Wav => FileKind::Wav,
            FileType::Aac => FileKind::Aac,
            FileType::M4a => FileKind::M4a,
            FileType::Ogg => FileKind::Ogg,
            FileType::Alac => FileKind::Alac,
            FileType::Aiff => FileKind::Aiff,
            FileType::Opus => FileKind::Opus,
            FileType::Other(ext) => FileKind::Other(ext@),
        }
    }
}

/// The kind named by an extension in lower case.
pub open spec fn kind_named(ext: Seq<char>) -> FileKind {
    if ext == "mp3"@ {
        FileKind::Mp3
    } else if ext == "flac"@ {
        FileKind::Flac
    } else if ext == "wav"@ {
        FileKind::Wav
    } else if ext == "aac"@ {
        FileKind::Aac
    } else if ext == "m4a"@ {
        FileKind::M4a
    } else if ext == "ogg"@ {
        FileKind::Ogg
    } else if ext == "alac"@ {
        FileKind::Alac
    } else if ext == "aiff"@ || ext == "aif"@ {
        FileKind::Aiff
    } else if ext == "opus"@ {
        FileKind::Opus
    } else {
        FileKind::Other(ext)
    }
}

/// The extension that stands for a kind.
pub open spec fn kind_name(kind: FileKind) -> Seq<char> {
    match kind {
        FileKind::Mp3 => "mp3"@,
        FileKind::Flac => "flac"@,
        FileKind::Wav => "wav"@,
        FileKind::Aac => "aac"@,
        FileKind::M4a => "m4a"@,
        FileKind::Ogg => "ogg"@,
        FileKind::Alac => "alac"@,
        FileKind::Aiff => "aiff"@,
        FileKind::Opus => "opus"@,
        FileKind::Other(ext) => ext,
    }
}

/// The kind keeps every sample.
pub open spec fn kind_is_lossless(kind: FileKind) -> bool {
    kind is Flac || kind is Alac || kind is Wav || kind is Aiff
}

impl FileType {
    /// The kind named by an extension that is already in lower case.
    pub fn from_lowercase_extension(ext: &str) -> (r: FileType)
        ensures
            r@ == kind_named(ext@),
    {
        if str_eq(ext, "mp3") {
            FileType::Mp3
        } else if str_eq(ext, "flac") {
            FileType::Flac
        } else if str_eq(ext, "wav") {
            FileType::Wav
        } else if str_eq(ext, "aac") {
            FileType::Aac
        } else if str_eq(ext, "m4a") {
            FileType::M4a
        } else if str_eq(ext, "ogg") {
            FileType::Ogg
        } else if str_eq(ext, "alac") {
            FileType::Alac
        } else if str_eq(ext, "aiff") || str_eq(ext, "aif") {
            FileType::Aiff
        } else if str_eq(ext, "opus") {
            FileType::Opus
        } else {
            FileType::Other(ext.to_owned())
        }
    }

    /// The kind named by an extension, in whatever case.
    pub fn from_extension(ext: &str) -> (r: FileType)
        ensures
            r@ == kind_named(crate::text::lowercase(ext@)),
    {
        let lower = to_lowercase(ext);
        FileType::from_lowercase_extension(lower.as_str())
    }

    /// Whether the kind keeps every sample.
    pub fn is_lossless(&self) -> (r: bool)
        ensures
            r == kind_is_lossless(self@),
    {
        match self {
            FileType::Flac | FileType::Alac | FileType::Wav | FileType::Aiff => true,
            _ => false,
        }
    }

    /// The extension that stands for the kind.
    pub fn display(&self) -> (r: String)
        ensures
            r@ == kind_name(self@),
    {
        match self {
            FileType::Mp3 => "mp3".to_owned(),
            FileType::Flac => "flac".to_owned(),
            FileType::Wav => "wav".to_owned(),
            FileType::Aac => "aac".to_owned(),
            FileType::M4a => "m4a".to_owned(),
            FileType::Ogg => "ogg".to_owned(),
            FileType::Alac => "alac".to_owned(),
            FileType::Aiff => "aiff".to_owned(),
            FileType::Opus => "opus".to_owned(),
            FileType::Other(ext) => ext.clone(),
        }
    }

    /// Whether two kinds are the same.
    pub fn same_as(&self, other: &FileType) -> (r: bool)
        ensures
            r == (self@ == other@),
    {
        match (self, other) {
            (FileType::Mp3, FileType::Mp3) => true,
            (FileType::Flac, FileType::Flac) => true,
            (FileType::Wav, FileType::Wav) => true,
            (FileType::Aac, FileType::Aac) => true,
            (FileType::M4a, FileType::M4a) => true,
            (FileType::Ogg, FileType::Ogg) => true,
            (FileType::Alac, FileType::Alac) => true,
            (FileType::Aiff, FileType::Aiff) => true,
            (FileType::Opus, FileType::Opus) => true,
            (FileType::Other(a), FileType::Other(b)) => str_eq(a.as_str(), b.as_str()),
            _ => false,
        }
    }
}

/// Which kinds of file a search accepts.
#[derive(Debug, Clone, PartialEq, Eq)]
pub enum WantedFileTypes {
    All,
    /// Only these, the earlier ones preferred.
    Specific(Vec<FileType>),
}

/// The kinds held by a list of file types.
pub open spec fn kinds(types: Seq<FileType>) -> Seq<FileKind> {
    Seq::new(types.len(), |i: int| types[i]@)
}

impl WantedFileTypes {
    /// A file of this kind is accepted.
    pub open spec fn accepts(self, kind: FileKind) -> bool {
        match self {
            WantedFileTypes::All => true,
            WantedFileTypes::Specific(types) => kinds(types@).contains(kind),
        }
    }

    /// The kinds that lose nothing.
    pub fn lossless() -> (r: WantedFileTypes)
        ensures
            r matches WantedFileTypes::Specific(types) && kinds(types@) == seq![
                FileKind::Flac,
                FileKind::Alac,
                FileKind::Wav,
                FileKind::Aiff,
            ],
    {
        let types = vec![FileType::Flac, FileType::Alac, FileType::Wav, FileType::Aiff];
        assert(kinds(types@) =~= seq![
            FileKind::Flac,
            FileKind::Alac,
            FileKind::Wav,
            FileKind::Aiff,
        ]);
        WantedFileTypes::Specific(types)
    }

    /// The kinds that lose something.
    pub fn lossy() -> (r: WantedFileTypes)
        ensures
            r matches WantedFileTypes::Specific(types) && kinds(types@) == seq![
                FileKind::Mp3,
                FileKind::Aac,
                FileKind::M4a,
                FileKind::Ogg,
                FileKind::Opus,
            ],
    {
        let types = vec![
            FileType::Mp3,
            FileType::Aac,
            FileType::M4a,
            FileType::Ogg,
            FileType::Opus,
        ];
        assert(kinds(types@) =~= seq![
            FileKind::Mp3,
            FileKind::Aac,
            FileKind::M4a,
            FileKind::Ogg,
            FileKind::Opus,
        ]);
        WantedFileTypes::Specific(types)
    }

    /// Every kind.
    pub fn all() -> (r: WantedFileTypes)
        ensures
            r is All,
    {
        WantedFileTypes::All
    }

    /// Just the given kinds.
    pub fn specific(file_types: Vec<FileType>) -> (r: WantedFileTypes)
        ensures
            r == WantedFileTypes::Specific(file_types),
    {
        WantedFileTypes::Specific(file_types)
    }

    /// Whether a file of this type is accepted.
    pub fn is_compatible(&self, file_type: &FileType) -> (r: bool)
        ensures
            r == self.accepts(file_type@),
    {
        match self {
            WantedFileTypes::All => true,
            WantedFileTypes::Specific(types) => index_of_type(types, file_type).is_some(),
        }
    }

    /// Where a file type stands among the preferred ones.
    pub fn priority_index(&self, file_type: &FileType) -> (r: Option<usize>)
        ensures
            match (*self, r) {
                (WantedFileTypes::All, _) => r is None,
                (WantedFileTypes::Specific(types), Some(i)) => {
                    &&& i < types@.len()
                    &&& types@[i as int]@ == file_type@
                    &&& forall|k: int| 0 <= k < i ==> (#[trigger] types@[k])@ != file_type@
                },
                (WantedFileTypes::Specific(types), None) => !kinds(types@).contains(file_type@),
            },
    {
        match self {
            WantedFileTypes::All => None,
            WantedFileTypes::Specific(types) => index_of_type(types, file_type),
        }
    }
}

fn index_of_type(types: &Vec<FileType>, file_type: &FileType) -> (r: Option<usize>)
    ensures
        match r {
            Some(i) => {
                &&& i < types@.len()
                &&& types@[i as int]@ == file_type@
                &&& forall|k: int| 0 <= k < i ==> (#[trigger] types@[k])@ != file_type@
                &&& kinds(types@).contains(file_type@)
            },
            None => !kinds(types@).contains(file_type@),
        },
{
    let mut i: usize = 0;
    while i < types.len()
        invariant
            i <= types.len(),
            forall|k: int| 0 <= k < i ==> (#[trigger] types@[k])@ != file_type@,
        decreases types.len() - i,
    {
        if types[i].same_as(file_type) {
            assert(kinds(types@)[i as int] == file_type@);
            return Some(i);
        }
        i += 1;
    }
    assert forall|k: int| 0 <= k < kinds(types@).len() implies kinds(types@)[k] != file_type@ by {
        assert(types@[k]@ != file_type@);
    }
    None
}

/// Among the known kinds, exactly those that lose nothing are accepted by
/// [`WantedFileTypes::lossless`], and exactly the others by
/// [`WantedFileTypes::lossy`]; an unknown extension is accepted by neither.
pub proof fn lemma_lossless_and_lossy(lossless: WantedFileTypes, lossy: WantedFileTypes, kind: FileKind)
    requires
        lossless matches WantedFileTypes::Specific(types) && kinds(types@) == seq![
            FileKind::Flac,
            FileKind::Alac,
            FileKind::Wav,
            FileKind::Aiff,
        ],
        lossy matches WantedFileTypes::Specific(types) && kinds(types@) == seq![
            FileKind::Mp3,
            FileKind::Aac,
            FileKind::M4a,
            FileKind::Ogg,
            FileKind::Opus,
        ],
    ensures
        lossless.accepts(kind) <==> kind_is_lossless(kind),
        lossy.accepts(kind) <==> !kind_is_lossless(kind) && !(kind is Other),
{
    let a = seq![FileKind::Flac, FileKind::Alac, FileKind::Wav, FileKind::Aiff];
    let b = seq![FileKind::Mp3, FileKind::Aac, FileKind::M4a, FileKind::Ogg, FileKind::Opus];
    assert(a[0] is Flac && a[1] is Alac && a[2] is Wav && a[3] is Aiff);
    assert(b[0] is Mp3 && b[1] is Aac && b[2] is M4a && b[3] is Ogg && b[4] is Opus);
}

/// The name of a kind names that kind again.
pub proof fn lemma_kind_name_round_trip(ext: Seq<char>)
    ensures
        kind_named(kind_name(kind_named(ext))) == kind_named(ext),
{
    lemma_name_names_kind(kind_named(ext));
}

/// Every kind reads back from its name, in small letters or in capitals, and `aif`
/// in either stands for AIFF.
pub proof fn lemma_kind_reads_back(kind: FileKind)
    requires
        !(kind is Other),
    ensures
        kind_named(crate::text::lowercase(kind_name(kind))) == kind,
        kind_named(crate::text::lowercase(crate::text::ascii_uppercase(kind_name(kind)))) == kind,
        kind_named(crate::text::lowercase("aif"@)) == FileKind::Aiff,
        kind_named(crate::text::lowercase(crate::text::ascii_uppercase("aif"@))) == FileKind::Aiff,
{
    lemma_name_names_kind(kind);
    reveal_strlit("mp3");
    reveal_strlit("flac");
    reveal_strlit("wav");
    reveal_strlit("aac");
    reveal_strlit("m4a");
    reveal_strlit("ogg");
    reveal_strlit("alac");
    reveal_strlit("aiff");
    reveal_strlit("aif");
    reveal_strlit("opus");
    let name = kind_name(kind);
    assert(crate::text::ascii(name) && crate::text::ascii("aif"@));
    crate::text::lemma_lowercase_ascii(name);
    crate::text::lemma_lowercase_ascii("aif"@);
    assert(crate::text::ascii_lowercase(name) =~= name);
    assert(crate::text::ascii_lowercase("aif"@) =~= "aif"@);
}

/// The letter case of an ASCII extension does not matter: in upper case it names
/// the same kind, and one that names no kind stands for itself in small letters.
pub proof fn lemma_extension_in_any_case(ext: Seq<char>)
    requires
        crate::text::ascii(ext),
    ensures
        kind_named(crate::text::lowercase(crate::text::ascii_uppercase(ext))) == kind_named(
            crate::text::lowercase(ext),
        ),
        kind_named(crate::text::lowercase(ext)) is Other ==> kind_named(
            crate::text::lowercase(ext),
        ) == FileKind::Other(crate::text::ascii_lowercase(ext)),
{
    crate::text::lemma_lowercase_ascii(ext);
    lemma_name_names_kind(kind_named(crate::text::lowercase(ext)));
}

/// The name of each kind names that kind; an extension that names none stands for
/// itself.
pub proof fn lemma_name_names_kind(kind: FileKind)
    ensures
        !(kind is Other) ==> kind_named(kind_name(kind)) == kind,
        kind_named("aif"@) == FileKind::Aiff,
        forall|ext: Seq<char>|
            (#[trigger] kind_named(ext)) is Other ==> kind_named(ext) == FileKind::Other(ext),
{
    reveal_strlit("mp3");
    reveal_strlit("flac");
    reveal_strlit("wav");
    reveal_strlit("aac");
    reveal_strlit("m4a");
    reveal_strlit("ogg");
    reveal_strlit("alac");
    reveal_strlit("aiff");
    reveal_strlit("aif");
    reveal_strlit("opus");
    assert("mp3"@[0] == 'm' && "mp3"@[1] == 'p');
    assert("m4a"@[1] == '4');
    assert("flac"@[0] == 'f');
    assert("wav"@[0] == 'w');
    assert("aac"@[1] == 'a' && "aac"@[0] == 'a');
    assert("ogg"@[1] == 'g');
    assert("alac"@[1] == 'l');
    assert("aiff"@[1] == 'i' && "aiff"@[0] == 'a');
    assert("aif"@[1] == 'i' && "aif"@[0] == 'a');
    assert("opus"@[1] == 'p' && "opus"@[0] == 'o');
}

} // verus!
