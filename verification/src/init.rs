//! The scan configuration and the per-filename operations it drives.
//!
//! `Init` holds the caller's choices for one scan: the root path to walk,
//! the token count and separator for identifier derivation, and the output
//! flavour (CSV or config). Directory traversal and file writing live with
//! the caller; the methods here decide, derive and format, and nothing
//! more.

use vstd::prelude::*;
use vstd::string::StringExecFns;

use crate::ident::{build_id, build_id_checked, join_first, split_spec};
use crate::matcher::{matches_filename, matches_spec};

verus! {

pub struct Init<'a> {
    path: &'a str,
    len: usize,
    sep: char,
    iscsv: bool,
    fname: String,
}

impl<'a> Init<'a> {
    /// The root path the scan starts from.
    pub closed spec fn spec_path(&self) -> Seq<char> {
        self.path@
    }

    /// The number of tokens that compose a sample identifier.
    pub closed spec fn spec_len(&self) -> usize {
        self.len
    }

    /// The token separator for identifier derivation.
    pub closed spec fn spec_sep(&self) -> char {
        self.sep
    }

    /// Whether the manifest is CSV (`true`) or config format (`false`).
    pub closed spec fn spec_iscsv(&self) -> bool {
        self.iscsv
    }

    /// The output file name.
    pub closed spec fn spec_fname(&self) -> Seq<char> {
        self.fname@
    }

    pub fn new(path: &'a str, len: usize, sep: char, iscsv: bool) -> (s: Self)
        ensures
            s.spec_path() == path@,
            s.spec_len() == len,
            s.spec_sep() == sep,
            s.spec_iscsv() == iscsv,
            s.spec_fname() == "yap-qc_input"@,
    {
        Self { path, len, sep, iscsv, fname: String::from_str("yap-qc_input") }
    }

    /// The root path, for the caller that walks the directory tree.
    pub fn path(&self) -> (p: &'a str)
        ensures
            p@ == self.spec_path(),
    {
        self.path
    }

    /// The output file name, for the caller that creates the file.
    pub fn fname(&self) -> (f: &String)
        ensures
            f@ == self.spec_fname(),
    {
        &self.fname
    }

    /// Appends the output extension to the file name: `.csv` in CSV mode,
    /// `.conf` otherwise.
    pub fn get_fnames(&mut self)
        ensures
            final(self).spec_fname() == old(self).spec_fname() + if old(self).spec_iscsv() {
                ".csv"@
            } else {
                ".conf"@
            },
            final(self).spec_path() == old(self).spec_path(),
            final(self).spec_len() == old(self).spec_len(),
            final(self).spec_sep() == old(self).spec_sep(),
            final(self).spec_iscsv() == old(self).spec_iscsv(),
    {
        if self.iscsv {
            self.fname.append(".csv");
        } else {
            self.fname.append(".conf");
        }
    }

    /// The manifest's header line (without the line terminator):
    /// `id,new_name` in CSV mode, `[seqs]` otherwise.
    pub fn write_header(&self) -> (line: String)
        ensures
            line@ == if self.spec_iscsv() {
                "id,new_name"@
            } else {
                "[seqs]"@
            },
    {
        if self.iscsv {
            String::from_str("id,new_name")
        } else {
            String::from_str("[seqs]")
        }
    }

    /// One manifest entry (without the line terminator): the identifier
    /// alone in CSV mode, `<id>:<path>/` otherwise.
    pub fn write_content(&self, id: &str, full_path: &str) -> (line: String)
        ensures
            line@ == if self.spec_iscsv() {
                id@
            } else {
                id@ + ":"@ + full_path@ + "/"@
            },
    {
        if self.iscsv {
            id.to_owned()
        } else {
            let mut line = id.to_owned();
            line.append(":");
            line.append(full_path);
            line.append("/");
            line
        }
    }

    /// Decides whether `fname` denotes a sequencing read file following
    /// the lane/read naming convention.
    pub fn re_matches_lazy(&self, fname: &str) -> (r: bool)
        ensures
            r == matches_spec(fname@),
    {
        matches_filename(fname)
    }

    /// Derives the sample identifier from a matching filename. The
    /// filename must split into strictly more than `spec_len()` tokens.
    pub fn construct_id(&self, names: &str) -> (id: String)
        requires
            self.spec_len() >= 1,
            split_spec(names@, self.spec_sep()).len() > self.spec_len() as int,
        ensures
            id@ == join_first(split_spec(names@, self.spec_sep()), self.spec_sep(), self.spec_len() as int),
    {
        build_id(names, self.sep, self.len)
    }

    /// Derives the sample identifier, reporting a filename with too few
    /// tokens as `None` instead of failing.
    pub fn construct_id_checked(&self, names: &str) -> (r: Option<String>)
        requires
            self.spec_len() >= 1,
        ensures
            match r {
                Some(id) => split_spec(names@, self.spec_sep()).len() > self.spec_len() as int
                    && id@ == join_first(
                    split_spec(names@, self.spec_sep()),
                    self.spec_sep(),
                    self.spec_len() as int,
                ),
                None => split_spec(names@, self.spec_sep()).len() <= self.spec_len() as int,
            },
    {
        build_id_checked(names, self.sep, self.len)
    }
}

} // verus!
