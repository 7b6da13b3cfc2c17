//! The Rust source files named by a program's debug information.
use vstd::prelude::*;
use crate::paths::{is_absolute, is_absolute_path, join, join_spec, strip_prefix, strip_prefix_spec};
use crate::text::{chars_of, string_from};
use gimli::{DwarfSections, EndianSlice, RunTimeEndian, SectionId};
use object::{Object, ObjectSection};

verus! {

/// What `path_clean::clean` gives for a path.
pub uninterp spec fn cleaned(p: Seq<char>) -> Seq<char>;

/// Cleans a path lexically with `path_clean::clean`: repeated slashes, `.`
/// components and `..` components after a named one are removed, and an empty
/// result becomes `.`. Only that the result is `clean`'s for the argument is stated.
#[verifier::external_body]
fn clean_path(p: &str) -> (r: String)
    ensures
        r@ == cleaned(p@),
{
    path_clean::clean(p).to_string_lossy().into_owned()
}

/// The directory under `cwd` that an include directory of the debug information
/// names: none for an absolute directory, else the cleaned join.
pub open spec fn include_dir_spec(cwd: Seq<char>, dir: Seq<char>) -> Option<Seq<char>> {
    let d = cleaned(dir);
    if is_absolute(d) {
        None
    } else {
        Some(cleaned(join_spec(cwd, d)))
    }
}

/// Resolves an include directory of a program's debug line program against the
/// project directory `cwd`; absolute directories are skipped.
pub fn resolve_include_dir(cwd: &str, dir: &str) -> (r: Option<String>)
    ensures
        r matches Some(p) ==> include_dir_spec(cwd@, dir@) == Some(p@),
        r is None ==> include_dir_spec(cwd@, dir@) is None,
{
    let d = clean_path(dir);
    if is_absolute_path(d.as_str()) {
        return None;
    }
    let j = join(cwd, d.as_str());
    Some(clean_path(j.as_str()))
}

/// How a source file found on disk is named: relative to `cwd` behind `./` where
/// it lies under `cwd`, else as it is.
pub open spec fn source_path_spec(file: Seq<char>, cwd: Seq<char>) -> Seq<char> {
    match strip_prefix_spec(file, cwd) {
        Some(r) => join_spec("./"@, r),
        None => file,
    }
}

/// The name of a source file found on disk.
pub fn source_path(file: &str, cwd: &str) -> (r: String)
    ensures
        r@ == source_path_spec(file@, cwd@),
{
    match strip_prefix(file, cwd) {
        Some(r) => join("./", r.as_str()),
        None => string_from(&chars_of(file)),
    }
}


/// The data of section `name` of the object file in `data`, uncompressed, as the
/// `object` crate reads it: empty where there is no such section, none where the
/// file cannot be parsed or the section cannot be uncompressed.
pub uninterp spec fn section_data(data: Seq<u8>, name: Seq<char>) -> Option<Seq<u8>>;

/// Parses `data` with `object::File::parse`, looks up section `name` with
/// `Object::section_by_name` and reads it with `ObjectSection::uncompressed_data`.
/// Only that the result is `object`'s for the bytes and name is stated.
#[verifier::external_body]
fn object_section(data: &[u8], name: &str) -> (r: Option<Vec<u8>>)
    ensures
        r matches Some(v) ==> section_data(data@, name@) == Some(v@),
        r is None ==> section_data(data@, name@) is None,
{
    let obj = object::File::parse(data).ok()?;
    match obj.section_by_name(name) {
        Some(s) => s.uncompressed_data().ok().map(|d| d.into_owned()),
        None => Some(Vec::new()),
    }
}

/// The bytes of DWARF section `name` of a debug file, or an error where the file
/// or the section cannot be read.
pub fn section_bytes(data: &[u8], name: &str) -> (r: Result<Vec<u8>, ()>)
    ensures
        r matches Ok(v) ==> section_data(data@, name@) == Some(v@),
        r is Err ==> section_data(data@, name@) is None,
{
    match object_section(data, name) {
        Some(v) => Ok(v),
        None => Err(()),
    }
}

/// The include directories of the line programs in the debug file `data`, unit
/// after unit, as `gimli` reads them from the sections that `section_bytes` gives,
/// and whether a read error stopped the walk (the directories before it are kept).
pub uninterp spec fn dwarf_include_dirs(data: Seq<u8>) -> (Seq<Seq<char>>, bool);

/// Loads the DWARF sections of `data` with `gimli::DwarfSections::load` (each read
/// by `section_bytes`), and walks `Dwarf::units`, reading each line program
/// header's `include_directories` with `Dwarf::attr_string`. Only that the result is
/// this walk's for the bytes is stated.
#[verifier::external_body]
fn read_include_dirs(data: &[u8]) -> (r: (Vec<String>, bool))
    ensures
        r.0@.map_values(|s: String| s@) == dwarf_include_dirs(data@).0,
        r.1 == dwarf_include_dirs(data@).1,
{
    let mut dirs = Vec::new();
    let mut walk = || -> Option<()> {
        let sections = DwarfSections::load(|id: SectionId| section_bytes(data, id.name())).ok()?;
        let dwarf = sections.borrow(|b| EndianSlice::new(b, RunTimeEndian::Little));
        let mut units = dwarf.units();
        while let Some(header) = units.next().ok()? {
            let unit = dwarf.unit(header).ok()?;
            for dir in unit.line_program.iter().flat_map(|p| p.header().include_directories()) {
                dirs.push(dwarf.attr_string(&unit, *dir).ok()?.to_string_lossy().into_owned());
            }
        }
        Some(())
    };
    let stopped = walk().is_none();
    (dirs, stopped)
}

/// The include directories named by a debug file's line programs, and whether
/// reading them stopped on an error.
pub fn include_dirs_of(data: &[u8]) -> (r: (Vec<String>, bool))
    ensures
        r.0@.map_values(|s: String| s@) == dwarf_include_dirs(data@).0,
        r.1 == dwarf_include_dirs(data@).1,
{
    read_include_dirs(data)
}

/// The first of `dirs` that resolves under `cwd` to a directory (`is_dir[i]` tells
/// for `dirs[i]`), from index `i` on.
pub open spec fn first_source_dir(cwd: Seq<char>, dirs: Seq<Seq<char>>, is_dir: Seq<bool>, i: int) -> Option<Seq<char>>
    decreases dirs.len() - i,
{
    if i < 0 || i >= dirs.len() {
        None
    } else {
        match include_dir_spec(cwd, dirs[i]) {
            Some(d) => if is_dir[i] {
                Some(d)
            } else {
                first_source_dir(cwd, dirs, is_dir, i + 1)
            },
            None => first_source_dir(cwd, dirs, is_dir, i + 1),
        }
    }
}

/// Picks the directory whose files are the program's sources: the first include
/// directory that is relative and resolves under `cwd` to an existing directory
/// (`is_dir[i]` tells whether `dirs[i]` resolved does).
pub fn pick_source_dir(cwd: &str, dirs: &Vec<String>, is_dir: &Vec<bool>) -> (r: Option<String>)
    requires
        is_dir@.len() == dirs@.len(),
    ensures
        r matches Some(d) ==> first_source_dir(cwd@, dirs@.map_values(|s: String| s@), is_dir@, 0)
            == Some(d@),
        r is None ==> first_source_dir(cwd@, dirs@.map_values(|s: String| s@), is_dir@, 0) is None,
{
    let ghost dv = dirs@.map_values(|s: String| s@);
    let mut i: usize = 0;
    while i < dirs.len()
        invariant
            i <= dirs@.len(),
            is_dir@.len() == dirs@.len(),
            dv == dirs@.map_values(|s: String| s@),
            first_source_dir(cwd@, dv, is_dir@, 0) == first_source_dir(cwd@, dv, is_dir@, i as int),
        decreases dirs@.len() - i,
    {
        assert(dv[i as int] == dirs@[i as int]@);
        match resolve_include_dir(cwd, dirs[i].as_str()) {
            Some(d) => {
                if is_dir[i] {
                    return Some(d);
                }
            },
            None => {},
        }
        i = i + 1;
    }
    None
}

} // verus!
