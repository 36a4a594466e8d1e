//! Batch renaming: which selected files a regular expression renames, and
//! to what.
use vstd::prelude::*;

use crate::matching::{regex_matches, regex_new, regex_replace, SearchRegex};
use crate::paths::{file_name, file_name_of, with_file_name, with_name};
use crate::text::{decimal, decimal_string, replace_text, replaced};

verus! {

/// The placeholder that a replacement turns into the file's number.
pub open spec fn seq_marker() -> Seq<char> {
    "#SEQ"@
}

/// The new name of the `index`-th target (counted from 0) once the
/// expression's replacement gave `replaced`: each `#SEQ` becomes the
/// target's number, counted from 1.
pub open spec fn numbered(index: nat, replaced_name: Seq<char>) -> Seq<char> {
    replaced(replaced_name, seq_marker(), decimal(index + 1))
}

/// Where the `index`-th target goes, given whether the expression matches
/// its file name and what the replacement makes of that name: nowhere when
/// it has no file name or the expression does not match.
pub open spec fn rename_target_spec(target: Seq<char>, index: nat, matched: bool, replaced_name: Seq<char>) -> Option<Seq<char>> {
    if file_name(target) is Some && matched {
        Some(with_name(target, numbered(index, replaced_name)))
    } else {
        None
    }
}

/// The new path of the `index`-th target, as [`rename_target_spec`]
/// states, from the expression's answers on its file name.
pub fn rename_target(target: &str, index: usize, matched: bool, replaced_name: &str) -> (r: Option<String>)
    requires
        index < usize::MAX,
    ensures
        r is Some <==> rename_target_spec(target@, index as nat, matched, replaced_name@) is Some,
        r matches Some(p) ==> p@ == rename_target_spec(target@, index as nat, matched, replaced_name@)->Some_0,
{
    if file_name_of(target).is_none() || !matched {
        return None;
    }
    let number = decimal_string((index + 1) as u128);
    proof {
        reveal_strlit("#SEQ");
    }
    let name = replace_text(replaced_name, "#SEQ", number.as_str());
    Some(with_file_name(target, name.as_str()))
}

/// The renames of a batch, by the expression's answers: the target's index
/// and new path, for each target the expression renames, in order.
pub open spec fn planned(targets: Seq<Seq<char>>, pattern: Seq<char>, replacement: Seq<char>) -> Seq<(usize, Seq<char>)>
    decreases targets.len(),
{
    if targets.len() == 0 {
        Seq::empty()
    } else {
        let prev = planned(targets.drop_last(), pattern, replacement);
        let i = targets.len() - 1;
        let t = targets.last();
        let name = match file_name(t) {
            Some(n) => n,
            None => Seq::empty(),
        };
        match rename_target_spec(t, i as nat, regex_matches(pattern, name), regex_replace(pattern, name, replacement)) {
            Some(p) => prev.push((i as usize, p)),
            None => prev,
        }
    }
}

pub open spec fn strings_view(v: Seq<String>) -> Seq<Seq<char>> {
    v.map_values(|s: String| s@)
}

pub open spec fn plan_view(v: Seq<(usize, String)>) -> Seq<(usize, Seq<char>)> {
    v.map_values(|p: (usize, String)| (p.0, p.1@))
}

/// Plans a batch rename of `targets` with the regular expression `pattern`
/// and the replacement `replacement`: an invalid expression is an error
/// ("Invalid Regex: " and the `regex` crate's message); otherwise the
/// renames [`planned`] states.
pub fn plan_batch_rename(targets: &[String], pattern: &str, replacement: &str) -> (r: Result<Vec<(usize, String)>, String>)
    ensures
        r is Ok <==> regex_new(pattern@) is Ok,
        r matches Err(e) ==> e@ == "Invalid Regex: "@ + regex_new(pattern@)->Err_0,
        r matches Ok(v) ==> plan_view(v@) == planned(strings_view(targets@), pattern@, replacement@),
{
    let re = match SearchRegex::compile(pattern) {
        Ok(re) => re,
        Err(e) => {
            return Err(String::from_str("Invalid Regex: ").concat(e.as_str()));
        },
    };
    let mut out: Vec<(usize, String)> = Vec::new();
    let n = targets.len();
    for i in 0..n
        invariant
            n == targets@.len(),
            re.pattern() == pattern@,
            plan_view(out@) == planned(strings_view(targets@).take(i as int), pattern@, replacement@),
    {
        let t = targets[i].as_str();
        let name = match file_name_of(t) {
            Some(n) => n,
            None => String::new(),
        };
        let matched = re.is_match(name.as_str());
        let rep = re.replace(name.as_str(), replacement);
        let ghost before = out@;
        proof {
            let tv = strings_view(targets@).take(i + 1);
            assert(tv.drop_last() =~= strings_view(targets@).take(i as int));
            assert(tv.last() == t@);
        }
        match rename_target(t, i, matched, rep.as_str()) {
            Some(p) => {
                out.push((i, p));
                assert(plan_view(out@) =~= plan_view(before).push((i, p@)));
            },
            None => {},
        }
    }
    assert(strings_view(targets@).take(n as int) =~= strings_view(targets@));
    Ok(out)
}

} // verus!
