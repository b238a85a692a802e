use vstd::prelude::*;
use vstd::string::*;
use crate::bounds::{boundary_msgs, check_boundaries};
use crate::entries::{check_modes, entries_msgs};
use crate::text::{append_lines, line_if, push_line, texts};
use crate::value::{find, lookup, Value};

verus! {

/// What the checks are run on: the document, or the reason it could not be
/// had (the error text of reading it, or of parsing it).
#[derive(Debug)]
pub enum Document {
    ReadFailed(String),
    ParseFailed(String),
    Parsed(Value),
}

/// A critical line for each required root field that is absent.
pub open spec fn missing_root_key(root: Seq<(String, Value)>, name: Seq<char>) -> Seq<Seq<char>> {
    line_if(find(root, name) is None, "[!!] JSON is missing key: "@ + name)
}

pub open spec fn missing_root_keys(root: Seq<(String, Value)>) -> Seq<Seq<char>> {
    missing_root_key(root, "modes"@) + missing_root_key(root, "starting_mode"@)
        + missing_root_key(root, "min_x"@) + missing_root_key(root, "min_y"@)
        + missing_root_key(root, "max_x"@) + missing_root_key(root, "max_y"@)
}

/// The report on a parsed document: a fatal line if its root is not a
/// mapping; else the missing root fields, then, if `modes` is a mapping, the
/// per-mode warnings and the boundary stage (its placement part enabled only
/// when the modes gave no warning), or else one critical line.
pub open spec fn document_msgs(v: Value) -> Seq<Seq<char>> {
    match v {
        Value::Object(root) => missing_root_keys(root@) + match find(root@, "modes"@) {
            Some(Value::Object(modes)) => entries_msgs(modes@, modes@) + boundary_msgs(
                root@,
                entries_msgs(modes@, modes@).len() == 0,
            ),
            _ => seq!["[!!] modes is not an object"@],
        },
        _ => seq!["[!?!] JSON is not an object"@],
    }
}

/// The full report: one fatal line where the document could not be read or
/// parsed, else the report on the document.
pub open spec fn report(d: Document) -> Seq<Seq<char>> {
    match d {
        Document::ReadFailed(e) => seq!["[!?!] Failed to read JSON file: "@ + e@],
        Document::ParseFailed(e) => seq!["[!?!] Failed to parse JSON: "@ + e@],
        Document::Parsed(v) => document_msgs(v),
    }
}

fn check_root_key(out: &mut Vec<String>, root: &Vec<(String, Value)>, name: &str)
    ensures
        texts(final(out)@) == texts(old(out)@) + missing_root_key(root@, name@),
{
    if lookup(root, name).is_none() {
        let mut s = String::from_str("[!!] JSON is missing key: ");
        s.append(name);
        push_line(out, s);
    } else {
        assert(texts(out@) =~= texts(out@) + missing_root_key(root@, name@));
    }
}

/// Checks a parsed document: its root shape, each of its modes, then its
/// boundary rectangle and the placement of the modes within it.
pub fn check_document(v: &Value) -> (r: Vec<String>)
    ensures
        texts(r@) == document_msgs(*v),
{
    let mut out: Vec<String> = Vec::new();
    match v {
        Value::Object(root) => {
            check_root_key(&mut out, root, "modes");
            check_root_key(&mut out, root, "starting_mode");
            check_root_key(&mut out, root, "min_x");
            check_root_key(&mut out, root, "min_y");
            check_root_key(&mut out, root, "max_x");
            check_root_key(&mut out, root, "max_y");
            let ghost s0 = texts(out@);
            assert(s0 =~= missing_root_keys(root@));
            match lookup(root, "modes") {
                Some(Value::Object(modes)) => {
                    let mode_lines = check_modes(modes);
                    append_lines(&mut out, &mode_lines);
                    let bound_lines = check_boundaries(root, mode_lines.len() == 0);
                    append_lines(&mut out, &bound_lines);
                    assert(texts(out@) =~= s0 + (texts(mode_lines@) + texts(bound_lines@)));
                },
                _ => {
                    push_line(&mut out, String::from_str("[!!] modes is not an object"));
                },
            }
        },
        _ => {
            push_line(&mut out, String::from_str("[!?!] JSON is not an object"));
            assert(texts(out@) =~= document_msgs(*v));
        },
    }
    out
}

/// Runs every check on the document and lists the diagnostics in order.
/// A line starting with `[!?!]` is fatal (no further check could be made),
/// `[!!]` critical (the document is malformed), `[!]` a warning (the data is
/// wrong or inconsistent, the document well-formed).
pub fn perform_checks(doc: &Document) -> (r: Vec<String>)
    ensures
        texts(r@) == report(*doc),
{
    match doc {
        Document::ReadFailed(e) => {
            let mut s = String::from_str("[!?!] Failed to read JSON file: ");
            s.append(e.as_str());
            let mut out: Vec<String> = Vec::new();
            push_line(&mut out, s);
            assert(texts(out@) =~= report(*doc));
            out
        },
        Document::ParseFailed(e) => {
            let mut s = String::from_str("[!?!] Failed to parse JSON: ");
            s.append(e.as_str());
            let mut out: Vec<String> = Vec::new();
            push_line(&mut out, s);
            assert(texts(out@) =~= report(*doc));
            out
        },
        Document::Parsed(v) => check_document(v),
    }
}

} // verus!
