//! What the user asks for.
use vstd::prelude::*;

verus! {

/// What the user asks for.
#[derive(Debug)]
pub struct Args {
    /// An audio file, or a directory of them.
    pub input: String,
    /// Where files go; the directory of each file itself where none is given.
    pub output_dir: Option<String>,
    /// How files are named.
    pub template: String,
    /// Whether directories within the directory are looked into.
    pub recursive: bool,
    /// Whether files are moved and not copied.
    pub move_files: bool,
    /// Whether files that are in the way are overwritten without asking.
    pub overwrite_files: bool,
    /// Whether files that were processed before are processed again.
    pub overwrite_metadata: bool,
    /// Whether nothing is asked: files that are in the way stay, unless they are
    /// to be overwritten.
    pub non_interactive: bool,
    /// The key to AcoustID; needed unless MusicBrainz is not asked.
    pub acoustid_api_key: Option<String>,
    /// Whether MusicBrainz is not asked; then no tag is ever written.
    pub no_musicbrainz: bool,
    /// Where files go of which nothing is known.
    pub unknown_dir: Option<String>,
    /// The greatest width of a cover; wider ones are scaled down.
    pub max_image_width: Option<u32>,
    /// The greatest height of a cover; higher ones are scaled down.
    pub max_image_height: Option<u32>,
}

impl Args {
    /// The key to AcoustID, empty where there is none.
    pub fn api_key(&self) -> (r: String)
        ensures
            r@ == match self.acoustid_api_key {
                Some(k) => k@,
                None => Seq::empty(),
            },
    {
        match &self.acoustid_api_key {
            Some(k) => k.clone(),
            None => String::new(),
        }
    }

    /// Where a file goes: to the directory that was asked for, else to its own,
    /// else to the current one.
    pub fn output_root(&self, parent: Option<String>) -> (r: String)
        ensures
            match self.output_dir {
                Some(dir) => r == dir,
                None => match parent {
                    Some(p) => r == p,
                    None => r@ == "."@,
                },
            },
    {
        match &self.output_dir {
            Some(dir) => dir.clone(),
            None => match parent {
                Some(p) => p,
                None => ".".to_owned(),
            },
        }
    }

    /// How deep directories are looked into.
    pub fn max_depth(&self) -> (r: usize)
        ensures
            r == if self.recursive {
                usize::MAX
            } else {
                1
            },
    {
        if self.recursive {
            usize::MAX
        } else {
            1
        }
    }
}

} // verus!
