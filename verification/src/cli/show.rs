//! Which of the reports in the output directory is the latest.

use vstd::prelude::*;
use vstd::string::StringExecFns;

use crate::error::{ChronicleError, ChronicleErrorView};
use crate::text::{
    ends_with, is_text_before, lemma_code_points_differ, starts_with, text_before,
};

verus! {

/// Whether `name` is the name of a report file: `chronicle-`, anything, `.md`.
pub open spec fn is_chronicle_name(name: Seq<char>) -> bool {
    "chronicle-"@.is_prefix_of(name) && ".md"@.is_suffix_of(name)
}

/// The report at `at` is the latest of `names`: it is a report, and no
/// report stands behind it in the order of a dictionary. A report's name
/// holds its date, so that the last in that order is the most recent.
pub open spec fn is_latest(names: Seq<Seq<char>>, at: int) -> bool {
    &&& 0 <= at < names.len()
    &&& is_chronicle_name(names[at])
    &&& forall|j: int|
        0 <= j < names.len() && is_chronicle_name(#[trigger] names[j]) ==> !text_before(
            names[at],
            names[j],
        )
}

/// The order of a dictionary puts no text before itself.
pub proof fn lemma_text_before_irreflexive(a: Seq<char>)
    ensures
        !text_before(a, a),
    decreases a.len(),
{
    if a.len() > 0 {
        lemma_text_before_irreflexive(a.drop_first());
    }
}

/// The order of a dictionary is transitive, and so is its complement.
pub proof fn lemma_text_before_transitive(a: Seq<char>, b: Seq<char>, c: Seq<char>)
    ensures
        text_before(a, b) && text_before(b, c) ==> text_before(a, c),
        !text_before(a, b) && !text_before(b, c) ==> !text_before(a, c),
    decreases a.len(),
{
    if a.len() > 0 && b.len() > 0 && c.len() > 0 {
        lemma_text_before_transitive(a.drop_first(), b.drop_first(), c.drop_first());
        lemma_code_points_differ(a[0], b[0]);
        lemma_code_points_differ(b[0], c[0]);
        lemma_code_points_differ(a[0], c[0]);
    }
}

/// Whether `name` is the name of a report file.
pub fn is_chronicle_file(name: &str) -> (b: bool)
    ensures
        b == is_chronicle_name(name@),
{
    starts_with(name, "chronicle-") && ends_with(name, ".md")
}

/// The latest report among the files named `names`. Fails where none of the
/// files is a report.
pub fn find_latest_chronicle(names: &Vec<String>) -> (result: Result<String, ChronicleError>)
    ensures
        match result {
            Ok(name) => exists|at: int| is_latest(names.deep_view(), at) && names[at]@ == name@,
            Err(e) => (forall|j: int|
                0 <= j < names.len() ==> !is_chronicle_name(#[trigger] names.deep_view()[j])) && e@
                == ChronicleErrorView::Config(
                "No chronicle files found. Run 'chronicle gen' first."@,
            ),
        },
{
    let mut latest: Option<usize> = None;
    let mut i: usize = 0;
    while i < names.len()
        invariant
            i <= names.len(),
            match latest {
                Some(at) => at < i && is_chronicle_name(names.deep_view()[at as int]) && forall|
                    j: int,
                |
                    0 <= j < i && is_chronicle_name(#[trigger] names.deep_view()[j])
                        ==> !text_before(names.deep_view()[at as int], names.deep_view()[j]),
                None => forall|j: int|
                    0 <= j < i ==> !is_chronicle_name(#[trigger] names.deep_view()[j]),
            },
        decreases names.len() - i,
    {
        if is_chronicle_file(names[i].as_str()) {
            match latest {
                Some(at) => {
                    if is_text_before(names[at].as_str(), names[i].as_str()) {
                        proof {
                            let all = names.deep_view();
                            assert forall|j: int|
                                0 <= j < i + 1 && is_chronicle_name(
                                    #[trigger] all[j],
                                ) implies !text_before(all[i as int], all[j]) by {
                                lemma_text_before_irreflexive(all[i as int]);
                                if j < i {
                                    lemma_text_before_transitive(
                                        all[at as int],
                                        all[i as int],
                                        all[j],
                                    );
                                }
                            }
                        }
                        latest = Some(i);
                    }
                },
                None => {
                    proof {
                        let all = names.deep_view();
                        lemma_text_before_irreflexive(all[i as int]);
                    }
                    latest = Some(i);
                },
            }
        }
        i += 1;
    }
    match latest {
        Some(at) => {
            assert(is_latest(names.deep_view(), at as int));
            Ok(names[at].clone())
        },
        None => Err(
            ChronicleError::Config(
                String::from_str("No chronicle files found. Run 'chronicle gen' first."),
            ),
        ),
    }
}

} // verus!
