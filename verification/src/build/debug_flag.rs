//! The `seer.toml` file that turns on debug information for a program's build.
use vstd::prelude::*;
use crate::paths::{join, join_spec, parent, parent_spec};
use crate::text::{chars_of, string_from};

verus! {

/// The path of `seer.toml`, in the directory of the given `Cargo.toml` (or in
/// `.` where the path has no parent).
pub open spec fn seer_toml_path_spec(cargo_toml_path: Seq<char>) -> Seq<char> {
    join_spec(
        match parent_spec(cargo_toml_path) {
            Some(d) => d,
            None => "."@,
        },
        "seer.toml"@,
    )
}

/// Path for the `seer.toml` file, in the same directory as `Cargo.toml`.
pub fn seer_toml_path(cargo_toml_path: &str) -> (r: String)
    ensures
        r@ == seer_toml_path_spec(cargo_toml_path@),
{
    match parent(cargo_toml_path) {
        Some(d) => join(d.as_str(), "seer.toml"),
        None => join(".", "seer.toml"),
    }
}

/// The TOML text that `toml_edit` prints for a document whose nested tables
/// `tables` (outermost first) end in one holding `key` set to `value`.
pub uninterp spec fn toml_bool_document(tables: Seq<Seq<char>>, key: Seq<char>, value: bool) -> Seq<char>;

/// Prints, with `toml_edit`, a document in which the tables named by `tables`
/// (outermost first) are nested and the innermost holds `key = value`. Nothing is
/// claimed of the text beyond that it is what `toml_edit` prints for that document.
#[verifier::external_body]
fn render_bool_setting(tables: &Vec<String>, key: &str, value: bool) -> (r: String)
    ensures
        r@ == toml_bool_document(tables@.map_values(|t: String| t@), key@, value),
{
    let mut item = toml_edit::value(value);
    let mut name = key;
    for t in tables.iter().rev() {
        let mut table = toml_edit::Table::new();
        table[name] = item;
        item = toml_edit::Item::Table(table);
        name = t.as_str();
    }
    let mut doc = toml_edit::DocumentMut::new();
    doc[name] = item;
    doc.to_string()
}

/// The settings of `seer.toml`: `debug = true` in `[profile.release]`.
pub open spec fn seer_toml_spec() -> Seq<char> {
    toml_bool_document(seq!["profile"@, "release"@], "debug"@, true)
}

/// The contents of `seer.toml`: `[profile.release]` with `debug = true`.
pub fn seer_toml_contents() -> (r: String)
    ensures
        r@ == seer_toml_spec(),
{
    let tables = vec![string_from(&chars_of("profile")), string_from(&chars_of("release"))];
    proof {
        reveal_strlit("profile");
        reveal_strlit("release");
    }
    assert(tables@.map_values(|t: String| t@) =~= seq!["profile"@, "release"@]);
    render_bool_setting(&tables, "debug", true)
}

} // verus!
