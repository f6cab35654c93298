//! Names of globals, as written and as the assembler sees them.

use once_cell::unsync::OnceCell;
use vstd::prelude::*;

use crate::text::concat;

verus! {

/// `once_cell::unsync::OnceCell`, which holds a name once the name was
/// worked out. It is declared so that it can stand in a field; what it
/// holds is spoken of as [`cell_text`].
#[verifier::external_type_specification]
#[verifier::external_body]
#[verifier::reject_recursive_types(T)]
pub struct ExOnceCell<T>(OnceCell<T>);

/// The text that a cell holds, once it holds one.
pub uninterp spec fn cell_text(cell: OnceCell<String>) -> Seq<char>;

/// `OnceCell::with_value` of once_cell. Taken on trust: the cell that
/// comes back holds `text`.
#[verifier::external_body]
fn cell_with(text: String) -> (cell: OnceCell<String>)
    ensures
        cell_text(cell) == text@,
{
    OnceCell::with_value(text)
}

/// `OnceCell::get_or_init` of once_cell, which fills an empty cell with
/// `name` behind an underscore. Taken on trust: what comes back is the
/// text that the cell holds.
#[verifier::external_body]
fn cell_get_or_init<'a>(cell: &'a OnceCell<String>, name: &str) -> (r: &'a str)
    ensures
        r@ == cell_text(*cell),
{
    cell.get_or_init(|| underscored(name)).as_str()
}

/// `name` with an underscore before it.
pub fn underscored(name: &str) -> (r: String)
    ensures
        r@ == Name::with_underscore(name@),
{
    proof {
        reveal_strlit("_");
    }
    let r = concat("_", name);
    assert("_"@ =~= seq!['_']);
    r
}

/// The name of a global.
#[derive(Debug, PartialEq, Eq)]
pub struct Name {
    name: String,
    mangled: OnceCell<String>,
}

impl Name {
    /// The name as it was written.
    pub closed spec fn text(&self) -> Seq<char> {
        self.name@
    }

    /// The name with an underscore is held beside the name.
    pub closed spec fn wf(&self) -> bool {
        cell_text(self.mangled) == Self::with_underscore(self.name@)
    }

    /// The name with an underscore before it, as some systems spell symbols.
    pub open spec fn with_underscore(name: Seq<char>) -> Seq<char> {
        seq!['_'] + name
    }

    /// The name as it was written.
    pub fn orig(&self) -> (r: &str)
        ensures
            r@ == self.text(),
    {
        self.name.as_str()
    }

    /// The name in assembly: with an underscore before it where the system asks for one.
    pub fn mangled(&self, leading_underscore: bool) -> (r: &str)
        requires
            self.wf(),
        ensures
            r@ == if leading_underscore {
                Self::with_underscore(self.text())
            } else {
                self.text()
            },
    {
        if leading_underscore {
            cell_get_or_init(&self.mangled, self.name.as_str())
        } else {
            self.orig()
        }
    }

    /// The name `name`.
    pub fn new(name: String) -> (r: Name)
        ensures
            r.wf(),
            r.text() == name@,
    {
        let mangled = cell_with(underscored(name.as_str()));
        Self { name, mangled }
    }
}

} // verus!
