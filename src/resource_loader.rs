//! Locations of schemas, dictionaries and conversion tables under a resource
//! directory. Reading the files is left to the host.
use vstd::prelude::*;
use vstd::string::*;
use crate::text::{chars_of, string_of_range, range_eq};

verus! {

/// `leaf` placed inside the directory `dir`, with one separator between them.
pub open spec fn join_path(dir: Seq<char>, leaf: Seq<char>) -> Seq<char> {
    if dir.len() == 0 {
        leaf
    } else if dir.last() == '/' {
        dir + leaf
    } else {
        dir + "/"@ + leaf
    }
}

/// Whether `s` ends with `suffix`.
pub open spec fn ends_with(s: Seq<char>, suffix: Seq<char>) -> bool {
    suffix.len() <= s.len() && s.subrange(s.len() - suffix.len(), s.len() as int) == suffix
}

/// `s` with every trailing repetition of a non-empty `suffix` removed.
pub open spec fn trim_suffix(s: Seq<char>, suffix: Seq<char>) -> Seq<char>
    decreases s.len(),
{
    if suffix.len() > 0 && ends_with(s, suffix) {
        trim_suffix(s.subrange(0, s.len() - suffix.len()), suffix)
    } else {
        s
    }
}

/// Joins a directory and a file name.
pub fn join(dir: &str, leaf: &str) -> (r: String)
    ensures
        r@ == join_path(dir@, leaf@),
{
    let d = chars_of(dir);
    if d.len() == 0 {
        String::from_str(leaf)
    } else if d[d.len() - 1] == '/' {
        String::from_str(dir).concat(leaf)
    } else {
        String::from_str(dir).concat("/").concat(leaf)
    }
}

/// The name of a file that ends with `suffix`, that suffix removed as often as
/// it repeats at the end; `None` for a file that does not end with it.
pub fn name_with_suffix(file_name: &str, suffix: &str) -> (r: Option<String>)
    requires
        suffix@.len() > 0,
    ensures
        ends_with(file_name@, suffix@) ==> r is Some && r->0@ == trim_suffix(file_name@, suffix@),
        !ends_with(file_name@, suffix@) ==> r is None,
{
    let f = chars_of(file_name);
    let s = chars_of(suffix);
    if s.len() > f.len() || !range_eq(&f, f.len() - s.len(), f.len(), &s) {
        return None;
    }
    let mut end: usize = f.len();
    assert(f@.subrange(0, end as int) =~= f@);
    while s.len() <= end && range_eq(&f, end - s.len(), end, &s)
        invariant
            end <= f.len(),
            s@.len() > 0,
            trim_suffix(f@.subrange(0, end as int), s@) == trim_suffix(f@, s@),
        decreases end,
    {
        proof {
            let cur = f@.subrange(0, end as int);
            assert(cur.subrange(cur.len() - s@.len(), cur.len() as int) =~= f@.subrange(end - s@.len(), end as int));
            assert(cur.subrange(0, cur.len() - s@.len()) =~= f@.subrange(0, end - s@.len()));
        }
        end = end - s.len();
    }
    proof {
        let cur = f@.subrange(0, end as int);
        if s@.len() <= end {
            assert(cur.subrange(cur.len() - s@.len(), cur.len() as int) =~= f@.subrange(end - s@.len(), end as int));
        }
    }
    Some(string_of_range(&f, 0, end))
}

/// Resolves the locations of an input method's resources.
#[derive(Debug, Clone)]
pub struct ResourceLoader {
    resource_dir: String,
}

impl ResourceLoader {
    /// The directory that holds the resources.
    pub closed spec fn dir(&self) -> Seq<char> {
        self.resource_dir@
    }

    /// A loader for the given resource directory.
    pub fn new(resource_dir: &str) -> (r: Self)
        ensures
            r.dir() == resource_dir@,
    {
        ResourceLoader { resource_dir: String::from_str(resource_dir) }
    }

    /// The `schemas` directory.
    pub fn schemas_dir(&self) -> (r: String)
        ensures
            r@ == join_path(self.dir(), "schemas"@),
    {
        join(self.resource_dir.as_str(), "schemas")
    }

    /// The `dicts` directory.
    pub fn dicts_dir(&self) -> (r: String)
        ensures
            r@ == join_path(self.dir(), "dicts"@),
    {
        join(self.resource_dir.as_str(), "dicts")
    }

    /// The `opencc` directory.
    pub fn opencc_dir(&self) -> (r: String)
        ensures
            r@ == join_path(self.dir(), "opencc"@),
    {
        join(self.resource_dir.as_str(), "opencc")
    }

    /// The file of the named schema: `<name>.schema.yaml` in the schemas directory.
    pub fn schema_file(&self, schema_name: &str) -> (r: String)
        ensures
            r@ == join_path(join_path(self.dir(), "schemas"@), schema_name@ + ".schema.yaml"@),
    {
        let leaf = String::from_str(schema_name).concat(".schema.yaml");
        join(self.schemas_dir().as_str(), leaf.as_str())
    }

    /// The file of the named dictionary: `<name>.dict.yaml` in the dicts directory.
    pub fn dict_file(&self, dict_name: &str) -> (r: String)
        ensures
            r@ == join_path(join_path(self.dir(), "dicts"@), dict_name@ + ".dict.yaml"@),
    {
        let leaf = String::from_str(dict_name).concat(".dict.yaml");
        join(self.dicts_dir().as_str(), leaf.as_str())
    }

    /// The schema named by a file of the schemas directory, if it is a schema file.
    pub fn schema_name_of(file_name: &str) -> (r: Option<String>)
        ensures
            ends_with(file_name@, ".schema.yaml"@) ==> r is Some && r->0@ == trim_suffix(file_name@, ".schema.yaml"@),
            !ends_with(file_name@, ".schema.yaml"@) ==> r is None,
    {
        proof { reveal_strlit(".schema.yaml"); }
        name_with_suffix(file_name, ".schema.yaml")
    }

    /// The dictionary named by a file of the dicts directory, if it is a dictionary file.
    pub fn dict_name_of(file_name: &str) -> (r: Option<String>)
        ensures
            ends_with(file_name@, ".dict.yaml"@) ==> r is Some && r->0@ == trim_suffix(file_name@, ".dict.yaml"@),
            !ends_with(file_name@, ".dict.yaml"@) ==> r is None,
    {
        proof { reveal_strlit(".dict.yaml"); }
        name_with_suffix(file_name, ".dict.yaml")
    }
}

} // verus!
