//! The resolved configuration of a run.

use vstd::prelude::*;
use crate::paths::{
    file_name,
    join,
    parent,
    path_file_name,
    path_join,
    path_parent,
    path_strip_prefix,
    strip_prefix,
};

verus! {

/// The input directory that is used where none is given.
pub const DEFAULT_INPUT_DIR: &'static str = "./";

/// Name of the default output directory, a sibling of the input directory.
pub const DEFAULT_OUTPUT_NAME: &'static str = "web";

/// Names the directory above, in a path.
pub const PARENT_DIR: &'static str = "..";

/// Name of the subdirectory of the output directory that holds thumbnails.
pub const THUMBNAIL_SUBDIR: &'static str = "thumbnail";

/// Name of the subdirectory of the output directory that holds the
/// display-size derivatives.
pub const DISPLAY_SUBDIR: &'static str = "img";

/// Where a run reads and writes. Resolved once, then only read.
#[derive(Clone, Debug, PartialEq, Eq)]
pub struct Options {
    pub input_dir: String,
    pub output_dir: String,
    pub thumbnail_dir: String,
    pub img_dir: String,
}

/// Why the configuration could not be resolved.
#[derive(Clone, Copy, Debug, PartialEq, Eq, Structural)]
pub enum OptionsError {
    /// No output directory was given and the input directory has no parent
    /// to put the default one under.
    NoParentDirectory,
}

impl Options {
    /// The two derivative directories are the subdirectories of the output
    /// directory that carry their fixed names.
    pub open spec fn wf(self) -> bool {
        &&& self.thumbnail_dir@ == path_join(self.output_dir@, THUMBNAIL_SUBDIR@)
        &&& self.img_dir@ == path_join(self.output_dir@, DISPLAY_SUBDIR@)
    }

    /// The input directory that is read: the one given, or the default.
    pub open spec fn input_choice(input_dir: Option<String>) -> Seq<char> {
        match input_dir {
            Some(dir) => dir@,
            None => DEFAULT_INPUT_DIR@,
        }
    }

    /// The directory beside `input` that carries the default name, where
    /// `input` has a parent. An input path that ends in a name has it in its
    /// parent. One that ends in no name, such as `.`, `./` or `..`, stands for
    /// a directory whose own name the path does not show: the sibling is then
    /// reached through the directory above it.
    pub open spec fn sibling_output(input: Seq<char>) -> Option<Seq<char>> {
        match path_parent(input) {
            Some(up) => if path_file_name(input) is Some {
                Some(path_join(up, DEFAULT_OUTPUT_NAME@))
            } else {
                Some(path_join(path_join(input, PARENT_DIR@), DEFAULT_OUTPUT_NAME@))
            },
            None => None,
        }
    }

    /// The output directory that is written: the one given, or the
    /// directory of the default name beside the input directory, where the
    /// input directory has a parent.
    pub open spec fn output_choice(input: Seq<char>, output_dir: Option<String>) -> Option<
        Seq<char>,
    > {
        match output_dir {
            Some(dir) => Some(dir@),
            None => Self::sibling_output(input),
        }
    }

    /// Resolves the directories of a run from what the command line gave.
    pub fn resolve(input_dir: Option<String>, output_dir: Option<String>) -> (r: Result<
        Options,
        OptionsError,
    >)
        ensures
            match r {
                Ok(options) => {
                    &&& options.wf()
                    &&& options.input_dir@ == Self::input_choice(input_dir)
                    &&& Some(options.output_dir@) == Self::output_choice(
                        Self::input_choice(input_dir),
                        output_dir,
                    )
                },
                Err(e) => {
                    &&& e == OptionsError::NoParentDirectory
                    &&& Self::output_choice(Self::input_choice(input_dir), output_dir) is None
                },
            },
    {
        let input_dir = match input_dir {
            Some(dir) => dir,
            None => DEFAULT_INPUT_DIR.to_owned(),
        };
        let output_dir = match output_dir {
            Some(dir) => dir,
            None => match parent(input_dir.as_str()) {
                Some(up) => match file_name(input_dir.as_str()) {
                    Some(_) => join(up.as_str(), DEFAULT_OUTPUT_NAME),
                    None => {
                        let above = join(input_dir.as_str(), PARENT_DIR);
                        join(above.as_str(), DEFAULT_OUTPUT_NAME)
                    },
                },
                None => {
                    return Err(OptionsError::NoParentDirectory);
                },
            },
        };
        let thumbnail_dir = join(output_dir.as_str(), THUMBNAIL_SUBDIR);
        let img_dir = join(output_dir.as_str(), DISPLAY_SUBDIR);
        Ok(Options { input_dir, output_dir, thumbnail_dir, img_dir })
    }

    /// The path of `path` relative to the output directory; `None` where
    /// `path` does not lie under the output directory.
    pub fn relative_path(&self, path: &str) -> (r: Option<String>)
        ensures
            r is Some == path_strip_prefix(path@, self.output_dir@) is Some,
            r matches Some(p) ==> p@ == path_strip_prefix(path@, self.output_dir@)->0,
    {
        strip_prefix(path, self.output_dir.as_str())
    }
}

} // verus!
