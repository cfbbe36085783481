//! Names and places of saved results.

use vstd::prelude::*;

verus! {

/// Directory-name component separating the process name from its SHA-256 identity.
pub const PROCESS_DUMP_MARKER: &'static str = "procdmp";

/// Version written into every process-triage JSON document.
pub const PROCESS_TRIAGE_SCHEMA_VERSION: u32 = 4;

/// Process dump directory containing PE-related results.
pub const PE_DIRECTORY_NAME: &'static str = "PE";

/// Process dump directory containing import-related results.
pub const IMPORTS_DIRECTORY_NAME: &'static str = "Imports";

/// Process dump directory containing PEB-related results.
pub const PEB_DIRECTORY_NAME: &'static str = "PEB";

/// PE image metadata output file name.
pub const IMAGE_FILE_NAME: &'static str = "image.json";

/// PE section metadata output file name.
pub const SECTIONS_FILE_NAME: &'static str = "sections.json";

/// PDB metadata output file name.
pub const PDB_FILE_NAME: &'static str = "pdb.json";

/// Process import metadata output file name.
pub const IMPORTS_FILE_NAME: &'static str = "imports.json";

/// PEB metadata output file name.
pub const PEB_FILE_NAME: &'static str = "peb.json";

/// TEB metadata output file name.
pub const TEBS_FILE_NAME: &'static str = "tebs.json";

/// Contains the fixed output locations for one completed process scan.
#[derive(Clone, Debug, Eq, PartialEq)]
pub struct ProcessDumpLayout {
    pub root: String,
    pub pe: String,
    pub imports: String,
    pub peb: String,
}

/// Characters of a written SHA-256 digest.
pub const SHA256_DIGEST_LENGTH: usize = 64;

/// Whether a character is a hexadecimal digit.
pub open spec fn is_hex_digit(c: char) -> bool {
    ('0' <= c && c <= '9') || ('a' <= c && c <= 'f') || ('A' <= c && c <= 'F')
}

/// Whether a text is a written SHA-256 digest.
pub open spec fn sha256_digest(text: Seq<char>) -> bool {
    &&& text.len() == SHA256_DIGEST_LENGTH
    &&& forall|i: int| 0 <= i < text.len() ==> is_hex_digit(#[trigger] text[i])
}

/// Reports whether a text is a SHA-256 digest in hexadecimal.
pub fn is_sha256_digest(text: &str) -> (r: bool)
    ensures
        r == sha256_digest(text@),
{
    if text.unicode_len() != SHA256_DIGEST_LENGTH {
        return false;
    }
    let mut index: usize = 0;
    while index < SHA256_DIGEST_LENGTH
        invariant
            index <= SHA256_DIGEST_LENGTH,
            text@.len() == SHA256_DIGEST_LENGTH,
            forall|i: int| 0 <= i < index ==> is_hex_digit(#[trigger] text@[i]),
        decreases SHA256_DIGEST_LENGTH - index,
    {
        let c: char = text.get_char(index);
        let is_digit: bool = ('0' <= c && c <= '9') || ('a' <= c && c <= 'f') || ('A' <= c && c
            <= 'F');
        if !is_digit {
            assert(!is_hex_digit(text@[index as int]));
            return false;
        }
        index += 1;
    }
    true
}

/// A name inside a directory.
pub open spec fn joined(directory: Seq<char>, separator: char, name: Seq<char>) -> Seq<char> {
    if directory.len() == 0 || directory.last() == separator {
        directory + name
    } else {
        directory.push(separator) + name
    }
}

/// Joins a directory and a name in it.
pub fn join_name(directory: &str, separator: char, name: &str) -> (r: String)
    ensures
        r@ == joined(directory@, separator, name@),
{
    let mut path = directory.to_owned();
    let count: usize = directory.unicode_len();
    if count > 0 && directory.get_char(count - 1) != separator {
        path.push(separator);
    }
    path.append(name);
    path
}

/// The directory name of a process dump.
pub open spec fn dump_name(process_name: Seq<char>, sha256: Seq<char>) -> Seq<char> {
    process_name + seq!['_'] + PROCESS_DUMP_MARKER@ + seq!['_'] + sha256
}

/// Names the directory of a process dump.
pub fn process_dump_name(process_name: &str, sha256: &str) -> (r: String)
    ensures
        r@ == dump_name(process_name@, sha256@),
{
    let mut name = process_name.to_owned();
    name.push('_');
    assert(name@ =~= process_name@ + seq!['_']);
    name.append(PROCESS_DUMP_MARKER);
    let ghost marked = name@;
    name.push('_');
    assert(name@ =~= marked + seq!['_']);
    name.append(sha256);
    name
}

/// Lays out the process-dump tree under a directory. `process_name` names the target, `sha256` its
/// image.
pub fn process_dump_layout(
    current_directory: &str,
    separator: char,
    process_name: &str,
    sha256: &str,
) -> (r: ProcessDumpLayout)
    ensures
        r.root@ == joined(current_directory@, separator, dump_name(process_name@, sha256@)),
        r.pe@ == joined(r.root@, separator, PE_DIRECTORY_NAME@),
        r.imports@ == joined(r.root@, separator, IMPORTS_DIRECTORY_NAME@),
        r.peb@ == joined(r.root@, separator, PEB_DIRECTORY_NAME@),
{
    let name = process_dump_name(process_name, sha256);
    let root = join_name(current_directory, separator, name.as_str());
    let pe = join_name(root.as_str(), separator, PE_DIRECTORY_NAME);
    let imports = join_name(root.as_str(), separator, IMPORTS_DIRECTORY_NAME);
    let peb = join_name(root.as_str(), separator, PEB_DIRECTORY_NAME);
    ProcessDumpLayout { root, pe, imports, peb }
}

/// The directory of outputs that are no longer made.
pub open spec fn obsolete_directory(root: Seq<char>, separator: char) -> Seq<char> {
    joined(root, separator, "Patterns"@)
}

/// The outputs that are no longer made.
pub open spec fn obsolete_outputs(root: Seq<char>, separator: char) -> Seq<Seq<char>> {
    let patterns = obsolete_directory(root, separator);
    seq![
        joined(root, separator, "strings.json"@),
        joined(patterns, separator, "code_section.json"@),
        joined(patterns, separator, "pattern_hits64.json"@),
        joined(patterns, separator, "opcode_hits64.json"@),
        joined(patterns, separator, "entry_signature.json"@),
        joined(patterns, separator, "opcode_hits.json"@),
    ]
}

/// Lists the outputs under a dump root that are no longer made, and the directory most of them
/// stood in.
pub fn list_obsolete_outputs(root: &str, separator: char) -> (r: (Vec<String>, String))
    ensures
        r.0@.map_values(|path: String| path@) == obsolete_outputs(root@, separator),
        r.1@ == obsolete_directory(root@, separator),
{
    let patterns = join_name(root, separator, "Patterns");
    let mut outputs: Vec<String> = Vec::new();
    outputs.push(join_name(root, separator, "strings.json"));
    outputs.push(join_name(patterns.as_str(), separator, "code_section.json"));
    outputs.push(join_name(patterns.as_str(), separator, "pattern_hits64.json"));
    outputs.push(join_name(patterns.as_str(), separator, "opcode_hits64.json"));
    outputs.push(join_name(patterns.as_str(), separator, "entry_signature.json"));
    outputs.push(join_name(patterns.as_str(), separator, "opcode_hits.json"));
    assert(outputs@.map_values(|path: String| path@) =~= obsolete_outputs(root@, separator));
    (outputs, patterns)
}

} // verus!
