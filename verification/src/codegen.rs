//! The component code generator: it records the component schemas that were
//! compiled and writes the text of the include file that brings their
//! generated readers together, with a type enum, a type-id enum and a parser
//! that dispatches on a type id.
use crate::reflection::{
    object_at, object_count, object_name_bytes, objects_readable, reflected_object_names,
};
use std::collections::HashMap;
use vstd::prelude::*;
use vstd::utf8::encode_utf8;

verus! {

// ---------------------------------------------------------------------------
// Outside calls
// ---------------------------------------------------------------------------

/// Name for what `char::is_alphanumeric` returns for `c`.
pub uninterp spec fn unicode_alphanumeric(c: char) -> bool;

/// Name for what `char::is_uppercase` returns for `c`.
pub uninterp spec fn unicode_uppercase(c: char) -> bool;

/// Name for the file stem that `std::path::Path::file_stem` finds in a path
/// given as text (`None` when the path has no file name).
pub uninterp spec fn path_file_stem(path: Seq<char>) -> Option<Seq<char>>;

/// Calls `char::is_alphanumeric`; the result is the name
/// `unicode_alphanumeric` applied to `c` (the Unicode tables are not stated).
#[verifier::external_body]
fn char_is_alphanumeric(c: char) -> (r: bool)
    ensures
        r == unicode_alphanumeric(c),
{
    c.is_alphanumeric()
}

/// Calls `char::is_uppercase`; the result is the name `unicode_uppercase`
/// applied to `c` (the Unicode tables are not stated).
#[verifier::external_body]
fn char_is_uppercase(c: char) -> (r: bool)
    ensures
        r == unicode_uppercase(c),
{
    c.is_uppercase()
}

/// Calls `String::push`, which appends one character.
#[verifier::external_body]
fn string_push(s: &mut String, c: char)
    ensures
        final(s)@ == old(s)@.push(c),
{
    s.push(c)
}

/// Calls `std::path::Path::file_stem` on the path `path`; the result is the
/// name `path_file_stem` applied to the path's text. The stem of a path given
/// as text is itself valid text, so the conversion back never fails.
#[verifier::external_body]
fn file_stem(path: &str) -> (r: Option<String>)
    ensures
        r is None <==> path_file_stem(path@) is None,
        r matches Some(s) ==> path_file_stem(path@) == Some(s@),
{
    match std::path::Path::new(path).file_stem() {
        Some(stem) => match stem.to_str() {
            Some(text) => Some(text.to_string()),
            None => None,
        },
        None => None,
    }
}

// ---------------------------------------------------------------------------
// Identifier and number text
// ---------------------------------------------------------------------------

/// The ASCII lower-case form of `c`: `A`..`Z` become `a`..`z`, every other
/// character stays.
pub open spec fn ascii_lowercase(c: char) -> char {
    if 'A' <= c && c <= 'Z' {
        ((c as u32) + 32) as char
    } else {
        c
    }
}

/// `c.to_ascii_lowercase()`, proved against `ascii_lowercase`.
fn to_ascii_lowercase(c: char) -> (r: char)
    ensures
        r == ascii_lowercase(c),
{
    if 'A' <= c && c <= 'Z' {
        let b: u8 = (c as u8) + 32;
        b as char
    } else {
        c
    }
}

/// Every character of `s` is alphanumeric in the sense of `char::is_alphanumeric`.
pub open spec fn all_alphanumeric(s: Seq<char>) -> bool {
    forall|i: int| 0 <= i < s.len() ==> #[trigger] unicode_alphanumeric(s[i])
}

/// The snake-case form of a camel-case identifier: every character is
/// lower-cased (ASCII only), and an upper-case character other than the first
/// is preceded by `_`.
pub open spec fn snake_case(s: Seq<char>) -> Seq<char>
    decreases s.len(),
{
    if s.len() == 0 {
        Seq::empty()
    } else {
        let c = s.last();
        let sep: Seq<char> = if unicode_uppercase(c) && s.len() > 1 {
            seq!['_']
        } else {
            Seq::empty()
        };
        snake_case(s.drop_last()) + sep + seq![ascii_lowercase(c)]
    }
}

/// The character of the decimal digit `d` (0 to 9).
pub open spec fn digit_char(d: nat) -> char {
    if d == 0 {
        '0'
    } else if d == 1 {
        '1'
    } else if d == 2 {
        '2'
    } else if d == 3 {
        '3'
    } else if d == 4 {
        '4'
    } else if d == 5 {
        '5'
    } else if d == 6 {
        '6'
    } else if d == 7 {
        '7'
    } else if d == 8 {
        '8'
    } else {
        '9'
    }
}

/// The decimal text of `n`, without leading zeros (`0` for zero).
pub open spec fn decimal(n: nat) -> Seq<char>
    decreases n,
{
    if n < 10 {
        seq![digit_char(n)]
    } else {
        decimal(n / 10).push(digit_char(n % 10))
    }
}

fn digit(d: usize) -> (r: char)
    requires
        d < 10,
    ensures
        r == digit_char(d as nat),
{
    if d == 0 {
        '0'
    } else if d == 1 {
        '1'
    } else if d == 2 {
        '2'
    } else if d == 3 {
        '3'
    } else if d == 4 {
        '4'
    } else if d == 5 {
        '5'
    } else if d == 6 {
        '6'
    } else if d == 7 {
        '7'
    } else if d == 8 {
        '8'
    } else {
        '9'
    }
}

/// Appends the decimal text of `n` to `s`.
fn push_decimal(s: &mut String, n: usize)
    ensures
        final(s)@ == old(s)@ + decimal(n as nat),
    decreases n,
{
    if n >= 10 {
        push_decimal(s, n / 10);
    }
    string_push(s, digit(n % 10));
}


// ---------------------------------------------------------------------------
// The include file
// ---------------------------------------------------------------------------

/// The texts of a sequence of strings.
pub open spec fn string_views(v: Seq<String>) -> Seq<Seq<char>> {
    v.map_values(|s: String| s@)
}

/// The opening of the include file: the module header, its imports and the
/// include of the base component's reader.
pub open spec fn include_header() -> Seq<char> {
    "pub mod components {\n"@ + "use std::mem;\n"@ + "use std::cmp::Ordering;\n"@
        + "use flatbuffers::EndianScalar;\n\n"@
        + "include!(\"../../../schema/base_component_generated.rs\");\n\n"@
}

/// The include line of one component's generated reader.
pub open spec fn include_line(component: Seq<char>) -> Seq<char> {
    "include!(\""@ + component + "_generated.rs"@ + "\");\n"@
}

/// The variant of the type enum for the root table `root`.
pub open spec fn type_line(root: Seq<char>) -> Seq<char> {
    "    "@ + root + "("@ + root + "<'a>),\n"@
}

/// The variant of the type-id enum for the root table `root`, numbered `i`.
pub open spec fn type_id_line(root: Seq<char>, i: nat) -> Seq<char> {
    "    "@ + root + " = "@ + decimal(i) + ",\n"@
}

/// The arm of the type parser for type id `i`, whose root table is `root`.
pub open spec fn parse_arm_line(root: Seq<char>, i: nat) -> Seq<char> {
    "        "@ + decimal(i) + " => Types::"@ + root + "("@ + "get_root_as_"@ + snake_case(root)
        + "(buf)),\n"@
}

/// The include lines of the first `k` components.
pub open spec fn include_lines(components: Seq<Seq<char>>, k: nat) -> Seq<char>
    decreases k,
{
    if k == 0 {
        Seq::empty()
    } else {
        include_lines(components, (k - 1) as nat) + include_line(components[k - 1])
    }
}

/// The type-enum variants of the first `k` root tables.
pub open spec fn type_lines(roots: Seq<Seq<char>>, k: nat) -> Seq<char>
    decreases k,
{
    if k == 0 {
        Seq::empty()
    } else {
        type_lines(roots, (k - 1) as nat) + type_line(roots[k - 1])
    }
}

/// The type-id-enum variants of the first `k` root tables.
pub open spec fn type_id_lines(roots: Seq<Seq<char>>, k: nat) -> Seq<char>
    decreases k,
{
    if k == 0 {
        Seq::empty()
    } else {
        type_id_lines(roots, (k - 1) as nat) + type_id_line(roots[k - 1], (k - 1) as nat)
    }
}

/// The parser arms of the first `k` root tables.
pub open spec fn parse_arm_lines(roots: Seq<Seq<char>>, k: nat) -> Seq<char>
    decreases k,
{
    if k == 0 {
        Seq::empty()
    } else {
        parse_arm_lines(roots, (k - 1) as nat) + parse_arm_line(roots[k - 1], (k - 1) as nat)
    }
}

/// The type enum: one variant per root table, then `Unknown`.
pub open spec fn type_enum(roots: Seq<Seq<char>>) -> Seq<char> {
    "pub enum Types<'a> { \n"@ + type_lines(roots, roots.len()) + "    Unknown,\n}\n"@
}

/// The type-id enum: one variant per root table, numbered from 0, then `Unknown`.
pub open spec fn type_id_enum(roots: Seq<Seq<char>>) -> Seq<char> {
    "pub enum TypeIds { \n"@ + type_id_lines(roots, roots.len()) + "    Unknown,\n}\n"@
}

/// The parser that maps a type id to the reader of its root table.
pub open spec fn parse_type_fn(roots: Seq<Seq<char>>) -> Seq<char> {
    "\n#[inline(always)]\npub fn parse_type<'a>(id: u64, buf: &'a [u8]) -> Types<'a> { \n"@
        + "    match id {\n"@ + parse_arm_lines(roots, roots.len())
        + "        _ => Types::Unknown,\n    }\n}\n"@
}

/// The parser that reads the base component's type id and dispatches on it.
pub open spec fn parse_base_component_fn() -> Seq<char> {
    "\n#[inline(always)]\npub fn parse_base_component<'a>(buf: &'a [u8]) -> Types<'a> { \n"@
        + "    let base = dist::get_root_as_base_component(buf);\n"@
        + "    parse_type(base.id(), buf)\n"@ + "}\n"@
}

/// The whole include file for the given components and, in the same order,
/// the names of their root tables.
pub open spec fn include_file(components: Seq<Seq<char>>, roots: Seq<Seq<char>>) -> Seq<char> {
    include_header() + include_lines(components, components.len()) + "\n"@ + type_enum(roots)
        + type_id_enum(roots) + parse_type_fn(roots) + parse_base_component_fn() + "\n\n}"@
}

fn push_header(text: &mut String)
    ensures
        final(text)@ == old(text)@ + include_header(),
{
    text.append("pub mod components {\n");
    text.append("use std::mem;\n");
    text.append("use std::cmp::Ordering;\n");
    text.append("use flatbuffers::EndianScalar;\n\n");
    text.append("include!(\"../../../schema/base_component_generated.rs\");\n\n");
}

fn push_parse_base_component(text: &mut String)
    ensures
        final(text)@ == old(text)@ + parse_base_component_fn(),
{
    text.append("\n#[inline(always)]\npub fn parse_base_component<'a>(buf: &'a [u8]) -> Types<'a> { \n");
    text.append("    let base = dist::get_root_as_base_component(buf);\n");
    text.append("    parse_type(base.id(), buf)\n");
    text.append("}\n");
}

fn push_type_lines(type_enum_text: &mut String, type_id_enum_text: &mut String, root: &str, i: usize)
    ensures
        final(type_enum_text)@ == old(type_enum_text)@ + type_line(root@),
        final(type_id_enum_text)@ == old(type_id_enum_text)@ + type_id_line(root@, i as nat),
{
    type_enum_text.append("    ");
    type_enum_text.append(root);
    type_enum_text.append("(");
    type_enum_text.append(root);
    type_enum_text.append("<'a>),\n");
    type_id_enum_text.append("    ");
    type_id_enum_text.append(root);
    type_id_enum_text.append(" = ");
    push_decimal(type_id_enum_text, i);
    type_id_enum_text.append(",\n");
}

fn push_include_line(text: &mut String, component: &str)
    ensures
        final(text)@ == old(text)@ + include_line(component@),
{
    text.append("include!(\"");
    text.append(component);
    text.append("_generated.rs");
    text.append("\");\n");
}

fn push_parse_arm(text: &mut String, root: &str, i: usize)
    requires
        all_alphanumeric(root@),
    ensures
        final(text)@ == old(text)@ + parse_arm_line(root@, i as nat),
{
    let snake = ComponentBuilder::camel_to_snake_case(root);
    text.append("        ");
    push_decimal(text, i);
    text.append(" => Types::");
    text.append(root);
    text.append("(");
    text.append("get_root_as_");
    text.append(snake.as_str());
    text.append("(buf)),\n");
}

/// Why a component could not be recorded or the include file not written.
#[derive(Debug, Clone, Copy, PartialEq, Eq, Structural)]
pub enum BuildError {
    /// The schema path has no file name to name the component after.
    MissingComponentName,
    /// The number of root-table names differs from the number of components.
    RootNameCount,
    /// A root-table name holds a character that is not alphanumeric.
    InvalidRootName,
}

/// The generator's record of the component schemas compiled so far: the
/// output directory, the component names (the schema files' stems) and the
/// schema paths, in the order they were compiled.
pub struct ComponentBuilder {
    output_directory: String,
    components: Vec<String>,
    input_files: Vec<String>,
}

/// The model of a component builder: output directory, component names and
/// schema paths.
pub type ComponentBuilderModel = (Seq<char>, Seq<Seq<char>>, Seq<Seq<char>>);

impl View for ComponentBuilder {
    type V = ComponentBuilderModel;

    closed spec fn view(&self) -> ComponentBuilderModel {
        (self.output_directory@, string_views(self.components@), string_views(self.input_files@))
    }
}

impl ComponentBuilder {
    /// The snake-case form of a camel-case identifier (`SecondComponent` becomes
    /// `second_component`). Every character must be alphanumeric.
    pub fn camel_to_snake_case(s: &str) -> (r: String)
        requires
            all_alphanumeric(s@),
        ensures
            r@ == snake_case(s@),
    {
        let mut result = String::new();
        let mut first_char = true;
        let n = s.unicode_len();
        for i in 0..n
            invariant
                n == s@.len(),
                all_alphanumeric(s@),
                first_char == (i == 0),
                result@ == snake_case(s@.subrange(0, i as int)),
        {
            let c = s.get_char(i);
            proof {
                assert(unicode_alphanumeric(s@[i as int]));
                assert(s@.subrange(0, i + 1).drop_last() =~= s@.subrange(0, i as int));
            }
            if char_is_uppercase(c) && !first_char {
                string_push(&mut result, '_');
            }
            string_push(&mut result, to_ascii_lowercase(c));
            first_char = false;
        }
        assert(s@.subrange(0, n as int) =~= s@);
        result
    }

    /// `Some` of the snake-case form of `s` when every character is
    /// alphanumeric, `None` otherwise.
    pub fn checked_camel_to_snake_case(s: &str) -> (r: Option<String>)
        ensures
            r is Some <==> all_alphanumeric(s@),
            r matches Some(t) ==> t@ == snake_case(s@),
    {
        let n = s.unicode_len();
        for i in 0..n
            invariant
                n == s@.len(),
                forall|j: int| 0 <= j < i ==> #[trigger] unicode_alphanumeric(s@[j]),
        {
            if !char_is_alphanumeric(s.get_char(i)) {
                return None;
            }
        }
        Some(Self::camel_to_snake_case(s))
    }

    /// A builder that writes into `output_directory` and has no components yet.
    pub fn new(output_directory: &str) -> (r: Self)
        ensures
            r@ == (output_directory@, Seq::<Seq<char>>::empty(), Seq::<Seq<char>>::empty()),
    {
        let r = Self {
            components: Vec::new(),
            input_files: Vec::new(),
            output_directory: output_directory.to_owned(),
        };
        assert(string_views(r.components@) =~= Seq::<Seq<char>>::empty());
        assert(string_views(r.input_files@) =~= Seq::<Seq<char>>::empty());
        r
    }

    /// The directory the generated files go to.
    pub fn output_directory(&self) -> (r: &str)
        ensures
            r@ == self@.0,
    {
        self.output_directory.as_str()
    }

    /// The component names recorded so far, in order.
    pub fn components(&self) -> (r: &Vec<String>)
        ensures
            string_views(r@) == self@.1,
    {
        &self.components
    }

    /// Records the schema at `path`: its file stem becomes the component's
    /// name. Fails, and gives nothing back, when the path has no file name.
    pub fn compile_component(self, path: &str) -> (r: Result<Self, BuildError>)
        ensures
            path_file_stem(path@) is None <==> r is Err,
            r matches Err(e) ==> e == BuildError::MissingComponentName,
            r matches Ok(b) ==> b@ == (
                self@.0,
                self@.1.push(path_file_stem(path@)->0),
                self@.2.push(path@),
            ),
    {
        let mut builder = self;
        match file_stem(path) {
            None => Err(BuildError::MissingComponentName),
            Some(component_name) => {
                let ghost old_components = builder.components@;
                let ghost old_inputs = builder.input_files@;
                builder.components.push(component_name);
                builder.input_files.push(path.to_owned());
                assert(string_views(builder.components@) =~= string_views(old_components).push(
                    path_file_stem(path@)->0,
                ));
                assert(string_views(builder.input_files@) =~= string_views(old_inputs).push(
                    path@,
                ));
                Ok(builder)
            },
        }
    }

    /// The text of the include file, given the name of each component's root
    /// table in the order of the components. Every root name must be
    /// alphanumeric, since the parser names each reader after its snake case.
    pub fn finish(&self, root_names: &Vec<String>) -> (r: String)
        requires
            root_names@.len() == self@.1.len(),
            forall|i: int| 0 <= i < root_names@.len() ==> all_alphanumeric(#[trigger] root_names@[i]@),
        ensures
            r@ == include_file(self@.1, string_views(root_names@)),
    {
        let ghost components = string_views(self.components@);
        let ghost roots = string_views(root_names@);
        let n = self.components.len();
        let mut include_file_text = String::new();
        push_header(&mut include_file_text);
        let ghost header = include_file_text@;
        assert(header == include_header());

        // Includes of each component's generated reader.
        for i in 0..n
            invariant
                n == self.components@.len(),
                components == string_views(self.components@),
                include_file_text@ == header + include_lines(components, i as nat),
        {
            push_include_line(&mut include_file_text, self.components[i].as_str());
            assert(components[i as int] == self.components@[i as int]@);
        }
        include_file_text.append("\n");

        // The type enum and the type-id enum.
        let mut type_id_enum_text = String::new();
        let mut type_enum_text = String::new();
        type_enum_text.append("pub enum Types<'a> { \n");
        type_id_enum_text.append("pub enum TypeIds { \n");
        for i in 0..n
            invariant
                n == root_names@.len(),
                roots == string_views(root_names@),
                type_enum_text@ == "pub enum Types<'a> { \n"@ + type_lines(roots, i as nat),
                type_id_enum_text@ == "pub enum TypeIds { \n"@ + type_id_lines(roots, i as nat),
        {
            let str_name = root_names[i].as_str();
            assert(roots[i as int] == str_name@);
            push_type_lines(&mut type_enum_text, &mut type_id_enum_text, str_name, i);
        }
        type_enum_text.append("    Unknown,\n}\n");
        type_id_enum_text.append("    Unknown,\n}\n");
        include_file_text.append(type_enum_text.as_str());
        include_file_text.append(type_id_enum_text.as_str());

        // The parser that dispatches on the type id.
        include_file_text.append(
            "\n#[inline(always)]\npub fn parse_type<'a>(id: u64, buf: &'a [u8]) -> Types<'a> { \n",
        );
        include_file_text.append("    match id {\n");
        let ghost before_arms = include_file_text@;
        for i in 0..n
            invariant
                n == root_names@.len(),
                roots == string_views(root_names@),
                forall|j: int| 0 <= j < root_names@.len() ==> all_alphanumeric(#[trigger] root_names@[j]@),
                include_file_text@ == before_arms + parse_arm_lines(roots, i as nat),
        {
            let str_obj_name = root_names[i].as_str();
            assert(roots[i as int] == str_obj_name@);
            assert(all_alphanumeric(root_names@[i as int]@));
            push_parse_arm(&mut include_file_text, str_obj_name, i);
        }
        include_file_text.append("        _ => Types::Unknown,\n    }\n}\n");

        // The generic parser of a base component.
        push_parse_base_component(&mut include_file_text);
        include_file_text.append("\n\n}");
        include_file_text
    }

    /// The include file's text as `finish` gives it, or the error when the
    /// root names do not fit the components.
    pub fn checked_finish(&self, root_names: &Vec<String>) -> (r: Result<String, BuildError>)
        ensures
            root_names@.len() != self@.1.len() ==> r == Err::<String, BuildError>(
                BuildError::RootNameCount,
            ),
            root_names@.len() == self@.1.len() ==> (r is Ok <==> forall|i: int|
                0 <= i < root_names@.len() ==> all_alphanumeric(#[trigger] root_names@[i]@)),
            root_names@.len() == self@.1.len() && r is Err ==> r == Err::<String, BuildError>(
                BuildError::InvalidRootName,
            ),
            r matches Ok(t) ==> t@ == include_file(self@.1, string_views(root_names@)),
    {
        if root_names.len() != self.components.len() {
            return Err(BuildError::RootNameCount);
        }
        let n = root_names.len();
        for i in 0..n
            invariant
                n == root_names@.len(),
                n == self@.1.len(),
                forall|j: int| 0 <= j < i ==> all_alphanumeric(#[trigger] root_names@[j]@),
        {
            if Self::checked_camel_to_snake_case(root_names[i].as_str()).is_none() {
                return Err(BuildError::InvalidRootName);
            }
        }
        Ok(self.finish(root_names))
    }
}

/// The type table of a list of object names: the type id `k` (counted from
/// 0 in the list's order) maps to the `k`-th name.
pub fn type_table(object_names: &Vec<String>) -> (r: HashMap<u64, String>)
    ensures
        forall|k: u64| #[trigger] r@.contains_key(k) <==> k < object_names@.len(),
        forall|k: u64| k < object_names@.len() ==> #[trigger] r@[k]@ == object_names@[k as int]@,
{
    broadcast use vstd::std_specs::hash::group_hash_axioms;

    let mut counter: u64 = 0;
    let mut res: HashMap<u64, String> = HashMap::new();
    let n = object_names.len();
    for i in 0..n
        invariant
            n == object_names@.len(),
            counter == i,
            forall|k: u64| #[trigger] res@.contains_key(k) <==> k < counter,
            forall|k: u64| k < counter ==> #[trigger] res@[k]@ == object_names@[k as int]@,
    {
        res.insert(counter, object_names[i].clone());
        counter = counter + 1;
    }
    res
}

/// The type table of a compiled schema: the type id `k` (counted from 0 in
/// the order the schema lists its objects) maps to the name of the `k`-th
/// object. The schema's list of objects and their names must be readable.
pub fn generate_type_table(binary_repr: &[u8]) -> (r: std::io::Result<HashMap<u64, String>>)
    requires
        objects_readable(binary_repr@),
    ensures
        r matches Ok(table) && type_table_of(binary_repr@, table@),
{
    match checked_generate_type_table(binary_repr) {
        Some(table) => Ok(table),
        None => Ok(HashMap::new()),
    }
}

/// The type table is the one of the schema `b`: keyed by the numbers below
/// the schema's object count, each mapping to the text of that object's name.
pub open spec fn type_table_of(b: Seq<u8>, table: Map<u64, String>) -> bool {
    &&& forall|k: u64| #[trigger] table.contains_key(k) <==> k < object_count(b)
    &&& forall|k: u64|
        k < object_count(b) ==> encode_utf8(#[trigger] table[k]@) == object_name_bytes(
            b,
            object_at(b, k as int),
        )
}

/// The type table of a compiled schema as `generate_type_table` gives it, or
/// `None` when the schema's list of objects or one of their names cannot be
/// read.
pub fn checked_generate_type_table(binary_repr: &[u8]) -> (r: Option<HashMap<u64, String>>)
    ensures
        r is Some <==> objects_readable(binary_repr@),
        r matches Some(table) ==> type_table_of(binary_repr@, table@),
{
    match reflected_object_names(binary_repr) {
        Some(names) => Some(type_table(&names)),
        None => None,
    }
}

proof fn lemma_digit_char_injective(x: nat, y: nat)
    requires
        x < 10,
        y < 10,
        digit_char(x) == digit_char(y),
    ensures
        x == y,
{
    assert(digit_char(x) as u32 == 48 + x);
    assert(digit_char(y) as u32 == 48 + y);
}

proof fn lemma_decimal_len(n: nat)
    ensures
        decimal(n).len() >= 1,
        n >= 10 ==> decimal(n).len() >= 2,
        n < 10 ==> decimal(n).len() == 1,
    decreases n,
{
    if n >= 10 {
        lemma_decimal_len(n / 10);
    }
}

/// Distinct numbers are written as distinct numerals, so the type-id enum
/// and the parser that the include file declares never give two root tables
/// the same number.
pub proof fn lemma_decimal_injective(a: nat, b: nat)
    requires
        decimal(a) == decimal(b),
    ensures
        a == b,
    decreases a,
{
    lemma_decimal_len(a);
    lemma_decimal_len(b);
    if a < 10 {
        assert(b < 10);
        assert(decimal(a) =~= seq![digit_char(a)]);
        assert(decimal(b) =~= seq![digit_char(b)]);
        assert(decimal(a)[0] == digit_char(a));
        assert(decimal(b)[0] == digit_char(b));
        lemma_digit_char_injective(a, b);
    } else {
        assert(b >= 10);
        let da = decimal(a);
        let db = decimal(b);
        assert(da.last() == db.last());
        assert(da.drop_last() =~= decimal(a / 10));
        assert(db.drop_last() =~= decimal(b / 10));
        lemma_decimal_injective(a / 10, b / 10);
        assert(digit_char(a % 10) == digit_char(b % 10));
        lemma_digit_char_injective(a % 10, b % 10);
    }
}

/// The snake-case form of an identifier holds no ASCII capital letter, and
/// it keeps every character's place: it is at least as long as the
/// identifier, and ends with the identifier's last character lower-cased.
pub proof fn lemma_snake_case_is_lower_case(s: Seq<char>)
    ensures
        forall|i: int| 0 <= i < snake_case(s).len() ==> !('A' <= #[trigger] snake_case(s)[i] && snake_case(s)[i] <= 'Z'),
        snake_case(s).len() >= s.len(),
        s.len() > 0 ==> snake_case(s).last() == ascii_lowercase(s.last()),
    decreases s.len(),
{
    if s.len() > 0 {
        lemma_snake_case_is_lower_case(s.drop_last());
        let prev = snake_case(s.drop_last());
        let c = s.last();
        let sep: Seq<char> = if unicode_uppercase(c) && s.len() > 1 {
            seq!['_']
        } else {
            Seq::empty()
        };
        let r = prev + sep + seq![ascii_lowercase(c)];
        assert(snake_case(s) == r);
        assert forall|i: int| 0 <= i < r.len() implies !('A' <= #[trigger] r[i] && r[i] <= 'Z') by {
            if i < prev.len() {
                assert(r[i] == prev[i]);
            } else if i < prev.len() + sep.len() {
                assert(r[i] == '_');
            } else {
                assert(r[i] == ascii_lowercase(c));
            }
        }
    }
}

/// How many of the characters of `s` at positions 1 to `n - 1` are
/// upper-case: the number of `_` the snake-case form puts before the first
/// `n` characters.
pub open spec fn capitals_after_first(s: Seq<char>, n: int) -> int
    decreases n,
{
    if n <= 1 {
        0
    } else {
        capitals_after_first(s, n - 1) + if unicode_uppercase(s[n - 1]) {
            1int
        } else {
            0int
        }
    }
}

proof fn lemma_capitals_prefix(s: Seq<char>, t: Seq<char>, n: int)
    requires
        0 <= n <= t.len() <= s.len(),
        forall|j: int| 0 <= j < t.len() ==> s[j] == t[j],
    ensures
        capitals_after_first(s, n) == capitals_after_first(t, n),
        0 <= capitals_after_first(s, n),
        n >= 1 ==> capitals_after_first(s, n) <= n - 1,
    decreases n,
{
    if n > 1 {
        lemma_capitals_prefix(s, t, n - 1);
    }
}

proof fn lemma_capitals_mono(s: Seq<char>, a: int, b: int)
    requires
        a <= b,
    ensures
        capitals_after_first(s, a) <= capitals_after_first(s, b),
    decreases b,
{
    if a < b && b > 1 {
        lemma_capitals_mono(s, a, b - 1);
    }
}

proof fn lemma_snake_case_len(s: Seq<char>)
    ensures
        snake_case(s).len() == s.len() + capitals_after_first(s, s.len() as int),
    decreases s.len(),
{
    if s.len() > 0 {
        let t = s.drop_last();
        lemma_snake_case_len(t);
        lemma_capitals_prefix(s, t, t.len() as int);
    }
}

proof fn lemma_snake_case_at(s: Seq<char>, i: int)
    requires
        0 <= i < s.len(),
    ensures
        snake_case(s)[i + capitals_after_first(s, i + 1)] == ascii_lowercase(s[i]),
        i > 0 && unicode_uppercase(s[i]) ==> snake_case(s)[i + capitals_after_first(s, i + 1) - 1]
            == '_',
    decreases s.len(),
{
    let t = s.drop_last();
    let n = s.len() as int;
    let c = s.last();
    lemma_snake_case_len(t);
    lemma_capitals_prefix(s, t, n - 1);
    let prev = snake_case(t);
    let sep: Seq<char> = if unicode_uppercase(c) && s.len() > 1 {
        seq!['_']
    } else {
        Seq::empty()
    };
    let r = prev + sep + seq![ascii_lowercase(c)];
    assert(snake_case(s) == r);
    if i < n - 1 {
        lemma_snake_case_at(t, i);
        lemma_capitals_prefix(s, t, i + 1);
        lemma_capitals_mono(t, i + 1, n - 1);
        assert(t[i] == s[i]);
        let p = i + capitals_after_first(t, i + 1);
        assert(p < prev.len());
        assert(r[p] == prev[p]);
        if i > 0 && unicode_uppercase(s[i]) {
            assert(r[p - 1] == prev[p - 1]);
        }
    } else {
        assert(capitals_after_first(s, n) == capitals_after_first(t, n - 1) + sep.len());
        assert(r[(prev.len() + sep.len()) as int] == ascii_lowercase(c));
        if i > 0 && unicode_uppercase(s[i]) {
            assert(r[prev.len() as int] == '_');
        }
    }
}

/// Where the snake-case form of an identifier puts its characters: the
/// `i`-th character of `s`, lower-cased, lands at position `i` plus the number
/// of capitals after the first character up to and including it; each such
/// capital is preceded by `_`, whatever character comes before it; and
/// nothing else is written, the form being exactly as long as `s` and its
/// capitals after the first.
pub proof fn lemma_snake_case_places_characters(s: Seq<char>)
    ensures
        snake_case(s).len() == s.len() + capitals_after_first(s, s.len() as int),
        forall|i: int|
            0 <= i < s.len() ==> snake_case(s)[i + capitals_after_first(s, i + 1)] == ascii_lowercase(
                #[trigger] s[i],
            ),
        forall|i: int|
            0 < i < s.len() && unicode_uppercase(#[trigger] s[i]) ==> snake_case(s)[i
                + capitals_after_first(s, i + 1) - 1] == '_',
{
    lemma_snake_case_len(s);
    assert forall|i: int| 0 <= i < s.len() implies snake_case(s)[i + capitals_after_first(s, i + 1)]
        == ascii_lowercase(#[trigger] s[i]) by {
        lemma_snake_case_at(s, i);
    }
    assert forall|i: int| 0 < i < s.len() && unicode_uppercase(#[trigger] s[i]) implies snake_case(
        s,
    )[i + capitals_after_first(s, i + 1) - 1] == '_' by {
        lemma_snake_case_at(s, i);
    }
}

/// The length of the include lines of the first `k` components: each is its
/// name and 27 characters of `include!("`, `_generated.rs` and `");` with
/// its line break.
pub open spec fn include_text_len(components: Seq<Seq<char>>, k: int) -> int
    decreases k,
{
    if k <= 0 {
        0
    } else {
        include_text_len(components, k - 1) + components[k - 1].len() + 27
    }
}

proof fn lemma_include_line_text(c: Seq<char>)
    ensures
        include_line(c) == "include!(\""@ + c + "_generated.rs\");\n"@,
        include_line(c).len() == c.len() + 27,
{
    reveal_strlit("include!(\"");
    reveal_strlit("_generated.rs");
    reveal_strlit("\");\n");
    reveal_strlit("_generated.rs\");\n");
    assert(include_line(c) =~= "include!(\""@ + c + "_generated.rs\");\n"@);
}

proof fn lemma_include_lines_at(components: Seq<Seq<char>>, n: int, k: int)
    requires
        0 <= k < n <= components.len(),
    ensures
        include_lines(components, n as nat).len() == include_text_len(components, n),
        include_lines(components, n as nat).subrange(
            include_text_len(components, k),
            include_text_len(components, k) + components[k].len() + 27,
        ) == "include!(\""@ + components[k] + "_generated.rs\");\n"@,
    decreases n,
{
    lemma_include_lines_len(components, n);
    lemma_include_lines_len(components, n - 1);
    let prev = include_lines(components, (n - 1) as nat);
    let line = include_line(components[n - 1]);
    lemma_include_line_text(components[n - 1]);
    assert(include_lines(components, n as nat) == prev + line);
    if k < n - 1 {
        lemma_include_lines_at(components, n - 1, k);
        lemma_include_text_len_mono(components, k + 1, n - 1);
        lemma_include_text_len_mono(components, 0, k);
        assert(include_text_len(components, k + 1) == include_text_len(components, k)
            + components[k].len() + 27);
        assert(include_text_len(components, k) + components[k].len() + 27 <= prev.len());
        assert(include_lines(components, n as nat).subrange(
            include_text_len(components, k),
            include_text_len(components, k) + components[k].len() + 27,
        ) =~= prev.subrange(
            include_text_len(components, k),
            include_text_len(components, k) + components[k].len() + 27,
        ));
    } else {
        assert(include_lines(components, n as nat).subrange(
            include_text_len(components, k),
            include_text_len(components, k) + components[k].len() + 27,
        ) =~= line);
    }
}

proof fn lemma_include_lines_len(components: Seq<Seq<char>>, n: int)
    requires
        0 <= n <= components.len(),
    ensures
        include_lines(components, n as nat).len() == include_text_len(components, n),
    decreases n,
{
    if n > 0 {
        lemma_include_lines_len(components, n - 1);
        lemma_include_line_text(components[n - 1]);
    }
}

proof fn lemma_include_text_len_mono(components: Seq<Seq<char>>, a: int, b: int)
    requires
        0 <= a <= b,
    ensures
        include_text_len(components, a) <= include_text_len(components, b),
    decreases b,
{
    if a < b {
        lemma_include_text_len_mono(components, a, b - 1);
    }
}

/// The include file includes each component's generated reader by the
/// component's recorded name, unchanged: right after the header, the `k`-th
/// component's line is `include!("<name>_generated.rs");`, the lines standing
/// one after another in the order the components were compiled.
pub proof fn lemma_include_file_includes_each_component(
    components: Seq<Seq<char>>,
    roots: Seq<Seq<char>>,
    k: int,
)
    requires
        0 <= k < components.len(),
    ensures
        ({
            let p = include_header().len() + include_text_len(components, k);
            include_file(components, roots).subrange(p, p + components[k].len() + 27)
                == "include!(\""@ + components[k] + "_generated.rs\");\n"@
        }),
{
    let n = components.len() as int;
    lemma_include_lines_at(components, n, k);
    lemma_include_text_len_mono(components, k + 1, n);
    let h = include_header();
    let lines = include_lines(components, n as nat);
    let p = h.len() + include_text_len(components, k);
    let f = include_file(components, roots);
    lemma_include_text_len_mono(components, 0, k);
    assert(include_text_len(components, k + 1) == include_text_len(components, k)
        + components[k].len() + 27);
    assert(lines.len() == include_text_len(components, n));
    assert(f == h + lines + ("\n"@ + type_enum(roots) + type_id_enum(roots) + parse_type_fn(roots)
        + parse_base_component_fn() + "\n\n}"@)) by {
        assert(f =~= h + lines + ("\n"@ + type_enum(roots) + type_id_enum(roots) + parse_type_fn(roots)
            + parse_base_component_fn() + "\n\n}"@));
    }
    assert(f.subrange(p, p + components[k].len() + 27) =~= lines.subrange(
        include_text_len(components, k),
        include_text_len(components, k) + components[k].len() + 27,
    ));
}

} // verus!
