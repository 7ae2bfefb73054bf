//! The index of each named capture group of a compiled pattern.

use vstd::prelude::*;

use crate::compile::{compile, compile_spec};
use crate::engine::engine_accepts;
use crate::error::CompileError;
use crate::node::Node;
use crate::text::{chars_of, string_of};
use crate::words::same_text;

verus! {

/// The names of the capture groups of pattern `p` by index, the whole match
/// first; `None` for a group without a name.
pub uninterp spec fn capture_names_of(p: Seq<char>) -> Seq<Option<Seq<char>>>;

pub open spec fn opt_chars(o: Option<Vec<char>>) -> Option<Seq<char>> {
    match o {
        Some(v) => Some(v@),
        None => None,
    }
}

pub open spec fn names_view(s: Seq<Option<Vec<char>>>) -> Seq<Option<Seq<char>>> {
    s.map_values(|o: Option<Vec<char>>| opt_chars(o))
}

/// Relies on `regex::Regex::new` and `Regex::capture_names`: `None` exactly
/// when the engine does not compile the pattern, else the group names by index.
#[verifier::external_body]
fn capture_names(p: &Vec<char>) -> (r: Option<Vec<Option<Vec<char>>>>)
    ensures
        r is Some <==> engine_accepts(p@),
        r is Some ==> names_view(r->Some_0@) == capture_names_of(p@),
{
    let s: String = p.iter().collect();
    let re = regex::Regex::new(&s).ok()?;
    Some(re.capture_names().map(|n| n.map(|x| x.chars().collect())).collect())
}

/// Each group name with its index, in the order of the groups.
pub open spec fn named_indices(names: Seq<Option<Seq<char>>>) -> Seq<(Seq<char>, int)>
    decreases names.len(),
{
    if names.len() == 0 {
        Seq::empty()
    } else {
        let r = named_indices(names.drop_last());
        match names.last() {
            Some(n) => r.push((n, names.len() - 1)),
            None => r,
        }
    }
}

/// The name-to-index table of pattern `p`: the engine must compile it and
/// no group may be named `get_capture`.
pub open spec fn capture_table(p: Seq<char>) -> Result<Seq<(Seq<char>, int)>, CompileError> {
    if !engine_accepts(p) {
        Err(CompileError::UnderlyingEngineRejected)
    } else if capture_names_of(p).contains(Some("get_capture"@)) {
        Err(CompileError::ReservedGroupName)
    } else {
        Ok(named_indices(capture_names_of(p)))
    }
}

pub open spec fn table_view(t: Seq<(String, usize)>) -> Seq<(Seq<char>, int)> {
    t.map_values(|e: (String, usize)| (e.0@, e.1 as int))
}

/// A pattern together with the name under which its captures are read.
pub struct CreateCapture {
    pub struct_name: String,
    pub regex: String,
}

impl CreateCapture {
    /// A capture reader for raw pattern text.
    pub fn new(struct_name: String, regex: String) -> (r: CreateCapture)
        ensures
            r.struct_name == struct_name,
            r.regex == regex,
    {
        CreateCapture { struct_name, regex }
    }

    /// A capture reader for the pattern that a description compiles to.
    pub fn from_description(struct_name: String, nodes: &Vec<Node>) -> (r: Result<CreateCapture, CompileError>)
        ensures
            match r {
                Ok(c) => compile_spec(nodes@) == Ok::<Seq<char>, CompileError>(c.regex@)
                    && c.struct_name == struct_name,
                Err(e) => compile_spec(nodes@) == Err::<Seq<char>, CompileError>(e),
            },
    {
        let regex = compile(nodes)?;
        Ok(CreateCapture { struct_name, regex })
    }

    /// The index of each named group, checked by a trial compile.
    pub fn build(&self) -> (r: Result<Vec<(String, usize)>, CompileError>)
        ensures
            match r {
                Ok(t) => capture_table(self.regex@) == Ok::<Seq<(Seq<char>, int)>, CompileError>(table_view(t@)),
                Err(e) => capture_table(self.regex@) == Err::<Seq<(Seq<char>, int)>, CompileError>(e),
            },
    {
        let p = chars_of(self.regex.as_str());
        let names = match capture_names(&p) {
            Some(n) => n,
            None => {
                return Err(CompileError::UnderlyingEngineRejected);
            },
        };
        let ghost view = names_view(names@);
        let mut table: Vec<(String, usize)> = Vec::new();
        let mut i: usize = 0;
        assert(table_view(table@) =~= Seq::<(Seq<char>, int)>::empty());
        while i < names.len()
            invariant
                i <= names@.len(),
                view == names_view(names@),
                view == capture_names_of(p@),
                p@ == self.regex@,
                engine_accepts(p@),
                forall|k: int| 0 <= k < i ==> view[k] != Some("get_capture"@),
                table_view(table@) == named_indices(view.take(i as int)),
            decreases names@.len() - i,
        {
            assert(view.take(i + 1).drop_last() == view.take(i as int));
            assert(view.take(i + 1).last() == view[i as int]);
            match &names[i] {
                Some(n) => {
                    if same_text(n, "get_capture") {
                        assert(view[i as int] == opt_chars(names@[i as int]));
                        assert(view[i as int] == Some("get_capture"@));
                        assert(view.contains(Some("get_capture"@)));
                        return Err(CompileError::ReservedGroupName);
                    }
                    let ghost before = table@;
                    table.push((string_of(n), i));
                    assert(table_view(table@) =~= table_view(before).push((n@, i as int)));
                },
                None => {},
            }
            i = i + 1;
        }
        assert(view.take(i as int) == view);
        assert(!view.contains(Some("get_capture"@)));
        Ok(table)
    }
}

} // verus!
