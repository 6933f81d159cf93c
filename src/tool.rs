//! The work done for one tool: which fragments apply in the working
//! directory, the fold of their documents into one, and the export lines for
//! its destinations.

use vstd::prelude::*;
use vstd::string::StringExecFns;
use crate::merge::{merge_values, merged, merged_all, well_formed};
use crate::path::{CanonicalPath, is_subdir, is_within, same_path};
use crate::value::{Doc, Node, docs_of, entry_docs_of};

verus! {

/// A condition on the working directory, with its directory made canonical;
/// `None` where the directory could not be resolved (it vanished after the
/// configuration was loaded).
#[derive(Debug)]
pub struct DirectoryRule {
    pub directory: Option<CanonicalPath>,
    pub match_subdirectories: bool,
}

impl View for DirectoryRule {
    type V = (Option<Seq<Seq<char>>>, bool);

    open spec fn view(&self) -> (Option<Seq<Seq<char>>>, bool) {
        (
            match self.directory {
                Some(d) => Some(d@),
                None => None,
            },
            self.match_subdirectories,
        )
    }
}

/// A rule on `dir` holds in `cwd` when `dir` is `cwd`, or is an ancestor of
/// `cwd` and the rule extends to subdirectories.
pub open spec fn rule_holds(dir: Seq<Seq<char>>, subdirs: bool, cwd: Seq<Seq<char>>) -> bool {
    dir == cwd || (subdirs && is_within(dir, cwd))
}

/// The rules from index `i` on, looked at in order: the first that holds
/// decides `true`; an unresolved directory met before that is an error
/// naming its index; past the end nothing held.
pub open spec fn decision_from(rules: Seq<(Option<Seq<Seq<char>>>, bool)>, cwd: Seq<Seq<char>>, i: int) -> Result<bool, int>
    decreases rules.len() - i,
{
    if i < 0 || i >= rules.len() {
        Ok(false)
    } else {
        match rules[i].0 {
            None => Err(i),
            Some(dir) => if rule_holds(dir, rules[i].1, cwd) {
                Ok(true)
            } else {
                decision_from(rules, cwd, i + 1)
            },
        }
    }
}

/// Whether a fragment with these rules applies in `cwd`: always when it has
/// none, else when one holds, the rules being looked at in order.
pub open spec fn decision(rules: Seq<(Option<Seq<Seq<char>>>, bool)>, cwd: Seq<Seq<char>>) -> Result<bool, int> {
    if rules.len() == 0 {
        Ok(true)
    } else {
        decision_from(rules, cwd, 0)
    }
}

/// The views of a list of rules.
pub open spec fn rule_views(rules: Seq<DirectoryRule>) -> Seq<(Option<Seq<Seq<char>>>, bool)> {
    rules.map_values(|r: DirectoryRule| r@)
}

/// Whether a fragment with these rules takes part in the merge when the
/// working directory is `cwd`; `Err(i)` when rule `i`, whose directory could
/// not be resolved, had to be looked at.
pub fn should_run(rules: &[DirectoryRule], cwd: &CanonicalPath) -> (r: Result<bool, usize>)
    ensures
        match r {
            Ok(b) => decision(rule_views(rules@), cwd@) == Ok::<bool, int>(b),
            Err(i) => decision(rule_views(rules@), cwd@) == Err::<bool, int>(i as int),
        },
{
    let ghost views = rule_views(rules@);
    if rules.len() == 0 {
        return Ok(true);
    }
    let mut i: usize = 0;
    while i < rules.len()
        invariant
            views == rule_views(rules@),
            rules@.len() > 0,
            i <= rules.len(),
            decision(views, cwd@) == decision_from(views, cwd@, i as int),
        decreases rules.len() - i,
    {
        let rule = &rules[i];
        match &rule.directory {
            None => {
                return Err(i);
            },
            Some(dir) => {
                if (rule.match_subdirectories && is_subdir(dir, cwd)) || same_path(dir, cwd) {
                    return Ok(true);
                }
            },
        }
        i = i + 1;
    }
    Ok(false)
}

/// Of the rules a fragment may carry: none lets it apply anywhere; a rule on
/// `dir` lets it apply in `dir` itself; in a directory below `dir` it applies
/// exactly when the rule extends to subdirectories.
pub proof fn law_rules(dir: Seq<Seq<char>>, child: Seq<Seq<char>>, cwd: Seq<Seq<char>>, subdirs: bool)
    requires
        is_within(dir, child),
        child.len() > dir.len(),
    ensures
        decision(Seq::empty(), cwd) == Ok::<bool, int>(true),
        decision(seq![(Some(dir), subdirs)], dir) == Ok::<bool, int>(true),
        decision(seq![(Some(dir), subdirs)], child) == Ok::<bool, int>(subdirs),
{
    assert(dir != child);
    let one = seq![(Some(dir), subdirs)];
    assert(decision_from(one, child, 1) == Ok::<bool, int>(false));
}

/// The document that merging starts from: an empty mapping, whatever the
/// tool's format.
pub open spec fn empty_doc() -> Doc {
    Doc::Mapping(Seq::empty())
}

/// The merged document of one tool, built up fragment by fragment in
/// declaration order.
pub struct Synthesis {
    merged: Node,
    absorbed: Ghost<Seq<Doc>>,
}

impl Synthesis {
    /// The documents merged so far, in order.
    pub closed spec fn absorbed(&self) -> Seq<Doc> {
        self.absorbed@
    }

    /// The merged document is the fold of what was absorbed.
    pub closed spec fn wf(&self) -> bool {
        self.merged@ == merged_all(empty_doc(), self.absorbed@)
    }

    /// The current merged document.
    pub closed spec fn doc(&self) -> Doc {
        self.merged@
    }

    /// A synthesis with nothing merged yet.
    pub fn new() -> (r: Synthesis)
        ensures
            r.wf(),
            r.absorbed() == Seq::<Doc>::empty(),
            r.doc() == empty_doc(),
            well_formed(r.doc()),
    {
        let r = Synthesis { merged: Node::Mapping(Vec::new()), absorbed: Ghost(Seq::empty()) };
        assert(entry_docs_of(Seq::<(Node, Node)>::empty()) =~= Seq::<(Doc, Doc)>::empty());
        r
    }

    /// Merges the document of the next applying fragment.
    pub fn absorb(&mut self, fragment: Node)
        requires
            old(self).wf(),
        ensures
            final(self).wf(),
            final(self).absorbed() == old(self).absorbed().push(fragment@),
            final(self).doc() == merged(old(self).doc(), fragment@),
            well_formed(old(self).doc()) && well_formed(fragment@) ==> well_formed(final(self).doc()),
    {
        let ghost doc = fragment@;
        let mut current = Node::Null;
        std::mem::swap(&mut self.merged, &mut current);
        self.merged = merge_values(current, fragment);
        self.absorbed = Ghost(self.absorbed@.push(doc));
        assert(self.absorbed@.drop_last() =~= old(self).absorbed@);
    }

    /// The merged document.
    pub fn merged(&self) -> (r: &Node)
        ensures
            r@ == self.doc(),
            self.wf() ==> r@ == merged_all(empty_doc(), self.absorbed()),
    {
        &self.merged
    }

    /// The merged document, taken out.
    pub fn into_merged(self) -> (r: Node)
        ensures
            r@ == self.doc(),
            self.wf() ==> r@ == merged_all(empty_doc(), self.absorbed()),
    {
        self.merged
    }
}

/// The documents of `fragments` merged one after the other into an empty
/// mapping.
pub fn merge_all(fragments: Vec<Node>) -> (r: Node)
    ensures
        r@ == merged_all(empty_doc(), docs_of(fragments@)),
        (forall|i: int| 0 <= i < fragments@.len() ==> well_formed(#[trigger] fragments@[i]@)) ==> well_formed(r@),
{
    let ghost all = docs_of(fragments@);
    let mut s = Synthesis::new();
    for f in it: fragments.into_iter()
        invariant
            all == docs_of(it.seq()),
            s.wf(),
            s.absorbed() == all.take(it.index() as int),
            (forall|i: int| 0 <= i < it.seq().len() ==> well_formed(#[trigger] it.seq()[i]@)) ==> well_formed(s.doc()),
    {
        let ghost j = it.index() as int;
        assert(f == it.seq()[j]);
        s.absorb(f);
        assert(all.take(j + 1) =~= all.take(j).push(all[j]));
    }
    assert(all.take(all.len() as int) =~= all);
    s.into_merged()
}

/// The text of a path as `{:?}` formats it: quoted, with special characters escaped.
pub uninterp spec fn debug_quoted(s: Seq<char>) -> Seq<char>;

/// Relies on the `Debug` formatting of `str`: the quoted, escaped form of the text.
#[verifier::external_body]
fn quoted(s: &str) -> (r: String)
    ensures
        r@ == debug_quoted(s@),
{
    format!("{:?}", s)
}

/// The shell line that exports `name` as the already quoted path `quoted_path`.
pub fn export_statement(name: &str, quoted_path: &str) -> (r: String)
    ensures
        r@ == "export "@ + name@ + "="@ + quoted_path@,
{
    let mut line = String::from_str("export ");
    line.append(name);
    line.append("=");
    line.append(quoted_path);
    line
}

/// The shell line that exports `name` as `path`: `export NAME="path"`.
pub fn export_line(name: &str, path: &str) -> (r: String)
    ensures
        r@ == "export "@ + name@ + "="@ + debug_quoted(path@),
{
    let q = quoted(path);
    export_statement(name, q.as_str())
}

/// Whether a tool takes part in a run restricted to the tools named in `only`:
/// every tool does when `only` is empty.
pub fn is_selected(only: &Vec<String>, name: &str) -> (r: bool)
    ensures
        r == (only@.len() == 0 || exists|i: int| 0 <= i < only@.len() && (#[trigger] only@[i])@ == name@),
{
    if only.len() == 0 {
        return true;
    }
    let mut i: usize = 0;
    while i < only.len()
        invariant
            i <= only.len(),
            forall|j: int| 0 <= j < i ==> (#[trigger] only@[j])@ != name@,
        decreases only.len() - i,
    {
        if crate::text::same_text(only[i].as_str(), name) {
            return true;
        }
        i = i + 1;
    }
    false
}

} // verus!
