//! The text of a generated source file.
//!
//! Every function here appends to the text that it is given and leaves what
//! is already there as it is.

use vstd::prelude::*;
use vstd::string::StringExecFns;
use vstd::utf8::encode_utf8;
use crate::definition::DataDefinition;
use crate::license::MIT_LICENSE;
use crate::lines::{lines_of, split_lines, views};
use crate::naming::{
    identifier_of, is_first_empty_word, is_valid_stem, prefix_of, words, InvalidName,
};
use crate::schema::Schema;

verus! {

/// A line that holds a comment marker and nothing else.
pub open spec fn comment_line_text() -> Seq<char> {
    "//\n"@
}

/// A line of text as a comment.
pub open spec fn commented(line: Seq<char>) -> Seq<char> {
    "// "@ + line + "\n"@
}

/// Lines of text as comments, one after another.
pub open spec fn comment_block(lines: Seq<Seq<char>>) -> Seq<char> {
    lines.map_values(|line: Seq<char>| commented(line)).flatten()
}

/// The header of the file called `name`: the name, the copyright line and
/// the license notice, all as comments, between marker lines.
pub open spec fn header_text(name: Seq<char>) -> Seq<char> {
    comment_line_text() + commented(name) + comment_line_text() + commented(
        "Copyright 2022, Ethan D. Twardy"@,
    ) + comment_line_text() + comment_block(lines_of(MIT_LICENSE@)) + comment_line_text()
}

/// The directive that brings in the YAML library.
pub open spec fn preamble_text() -> Seq<char> {
    "#include <yaml/yaml.h>\n"@
}

/// The name of a function that does `action` on a record, reading `format`
/// from a `source`.
pub open spec fn function_name_of(
    prefix: Seq<char>,
    action: Seq<char>,
    format: Seq<char>,
    source: Seq<char>,
) -> Seq<char> {
    prefix + "_"@ + action + "_from_"@ + format + "_"@ + source
}

/// The function that reads a record from a YAML string, with an empty body.
pub open spec fn stub_text(prefix: Seq<char>, identifier: Seq<char>) -> Seq<char> {
    "int "@ + function_name_of(prefix, "deserialize"@, "yaml"@, "string"@)
        + "(const char* string, "@ + identifier + "* data) {\n"@ + "}\n"@
}

/// The whole file: header, preamble and stub, with a blank line between
/// each two.
pub open spec fn source_text(name: Seq<char>, prefix: Seq<char>, identifier: Seq<char>) -> Seq<
    char,
> {
    header_text(name) + "\n"@ + preamble_text() + "\n"@ + stub_text(prefix, identifier)
}

/// The name of the file that the text is written for: the stem with the
/// extension of a C source file.
pub open spec fn source_name_of(stem: Seq<char>) -> Seq<char> {
    stem + ".c"@
}

/// The text that a schema file with the given stem is turned into.
pub open spec fn generated_text(stem: Seq<char>) -> Seq<char> {
    source_text(source_name_of(stem), prefix_of(stem), identifier_of(stem))
}

/// Whether `result` is what generation gives for `stem`: the text for a
/// valid stem, the number of the first empty word for any other.
pub open spec fn is_generated(stem: Seq<char>, result: Result<String, InvalidName>) -> bool {
    match result {
        Ok(text) => is_valid_stem(stem) && text@ == generated_text(stem),
        Err(e) => is_first_empty_word(stem, e.word as int),
    }
}

/// Appends a line that holds only a comment marker.
pub fn comment_line(out: &mut String)
    ensures
        final(out)@ == old(out)@ + comment_line_text(),
{
    out.append("//\n");
}

/// Appends an empty line.
pub fn blank_line(out: &mut String)
    ensures
        final(out)@ == old(out)@ + "\n"@,
{
    out.append("\n");
}

/// Appends one line of text as a comment.
pub fn comment(out: &mut String, line: &str)
    ensures
        final(out)@ == old(out)@ + commented(line@),
{
    out.append("// ");
    out.append(line);
    out.append("\n");
    assert(out@ =~= old(out)@ + commented(line@));
}

/// Appends each line as a comment.
pub fn comment_lines(out: &mut String, lines: &Vec<String>)
    ensures
        final(out)@ == old(out)@ + comment_block(views(lines@)),
{
    let mut i: usize = 0;
    proof {
        assert(comment_block(views(lines@).take(0)) =~= Seq::<char>::empty());
    }
    while i < lines.len()
        invariant
            i <= lines.len(),
            out@ == old(out)@ + comment_block(views(lines@).take(i as int)),
        decreases lines.len() - i,
    {
        proof {
            let done = views(lines@).take(i as int);
            let mark = |line: Seq<char>| commented(line);
            assert(views(lines@).take(i + 1) =~= done.push(lines@[i as int]@));
            assert(done.push(lines@[i as int]@).map_values(mark) =~= done.map_values(mark).push(
                commented(lines@[i as int]@),
            ));
            done.map_values(mark).lemma_flatten_push(commented(lines@[i as int]@));
        }
        comment(out, lines[i].as_str());
        i += 1;
        assert(out@ =~= old(out)@ + comment_block(views(lines@).take(i as int)));
    }
    proof {
        assert(views(lines@).take(lines@.len() as int) =~= views(lines@));
    }
}

/// Appends the header of the file called `name`.
pub fn header(out: &mut String, name: &str)
    ensures
        final(out)@ == old(out)@ + header_text(name@),
{
    comment_line(out);
    comment(out, name);
    comment_line(out);
    comment(out, "Copyright 2022, Ethan D. Twardy");
    comment_line(out);
    comment_lines(out, &split_lines(MIT_LICENSE));
    comment_line(out);
    assert(out@ =~= old(out)@ + header_text(name@));
}

/// Appends the directive that brings in the YAML library.
pub fn preamble(out: &mut String)
    ensures
        final(out)@ == old(out)@ + preamble_text(),
{
    out.append("#include <yaml/yaml.h>\n");
}

/// Builds the name of a function from the prefix of its record and three
/// words: what it does, the format it reads and where it reads from.
pub fn function_name(prefix: &str, action: &str, format: &str, source: &str) -> (name: String)
    ensures
        name@ == function_name_of(prefix@, action@, format@, source@),
{
    let mut name = String::new();
    name.append(prefix);
    name.append("_");
    name.append(action);
    name.append("_from_");
    name.append(format);
    name.append("_");
    name.append(source);
    assert(name@ =~= function_name_of(prefix@, action@, format@, source@));
    name
}

/// Appends the function that reads the record from a YAML string. Its body
/// is empty.
pub fn deserialize_definitions(out: &mut String, definition: &DataDefinition)
    ensures
        final(out)@ == old(out)@ + stub_text(definition.prefix@, definition.identifier@),
{
    let name = function_name(definition.prefix.as_str(), "deserialize", "yaml", "string");
    out.append("int ");
    out.append(name.as_str());
    out.append("(const char* string, ");
    out.append(definition.identifier.as_str());
    out.append("* data) {\n");
    out.append("}\n");
    assert(out@ =~= old(out)@ + stub_text(definition.prefix@, definition.identifier@));
}

/// Appends the whole file called `name` for the record of `definition`.
pub fn source_file(out: &mut String, name: &str, definition: &DataDefinition)
    ensures
        final(out)@ == old(out)@ + source_text(
            name@,
            definition.prefix@,
            definition.identifier@,
        ),
{
    header(out, name);
    blank_line(out);
    preamble(out);
    blank_line(out);
    deserialize_definitions(out, definition);
    assert(out@ =~= old(out)@ + source_text(name@, definition.prefix@, definition.identifier@));
}

/// Gives the name of the file that the text is written for.
pub fn source_name(stem: &str) -> (name: String)
    ensures
        name@ == source_name_of(stem@),
{
    let mut name = String::from_str(stem);
    name.append(".c");
    name
}

/// Turns a schema, read from a file with the given stem, into the text of
/// its source file. The text depends on the stem alone. A stem with an
/// empty word is refused, and nothing is generated for it.
pub fn generate(stem: &str, schema: Schema) -> (result: Result<String, InvalidName>)
    ensures
        is_generated(stem@, result),
        result is Ok <==> is_valid_stem(stem@),
{
    match DataDefinition::new(stem, schema) {
        Ok(definition) => {
            let name = source_name(stem);
            let mut text = String::new();
            source_file(&mut text, name.as_str(), &definition);
            assert(text@ =~= generated_text(stem@));
            Ok(text)
        },
        Err(e) => Err(e),
    }
}

/// Generation is determined by the stem: whatever it gives for one stem at
/// one time it gives at any other, character for character and so byte for
/// byte.
pub proof fn lemma_generation_is_determined(
    stem: Seq<char>,
    first: Result<String, InvalidName>,
    second: Result<String, InvalidName>,
)
    requires
        is_generated(stem, first),
        is_generated(stem, second),
    ensures
        first is Ok <==> second is Ok,
        first is Ok ==> first->Ok_0@ == second->Ok_0@ && encode_utf8(first->Ok_0@) == encode_utf8(
            second->Ok_0@,
        ),
        first is Err ==> first->Err_0 == second->Err_0,
{
    match (first, second) {
        (Err(e), Ok(_)) => {
            assert(words(stem)[e.word as int].len() == 0);
        },
        (Ok(_), Err(e)) => {
            assert(words(stem)[e.word as int].len() == 0);
        },
        (Err(e), Err(f)) => {
            if e.word < f.word {
                assert(words(stem)[e.word as int].len() == 0);
            } else if f.word < e.word {
                assert(words(stem)[f.word as int].len() == 0);
            }
        },
        (Ok(_), Ok(_)) => {},
    }
}

} // verus!
