//! Atoms: the tools the model may call, their registry, and the parameter
//! schemas announced to the model.

use vstd::prelude::*;
use crate::llm::{LlmError, llm_error_text};
use crate::config::atom_enabled;
use crate::text::{blank_range, chars_of, is_blank, prefixed, same_text};

verus! {

/// Why an atom could not run.
#[derive(Debug)]
pub enum AtomError {
    UnknownAtom(String),
    InvalidArgs(String),
    ExecutionFailed(String),
    NotEnabled,
    LlmError(String),
}

/// The text that describes an atom error to the user.
pub open spec fn atom_error_text(e: AtomError) -> Seq<char> {
    match e {
        AtomError::UnknownAtom(m) => "未知原子: "@ + m@,
        AtomError::InvalidArgs(m) => "参数错误: "@ + m@,
        AtomError::ExecutionFailed(m) => "执行失败: "@ + m@,
        AtomError::NotEnabled => "原子未启用"@,
        AtomError::LlmError(m) => "LLM错误: "@ + m@,
    }
}

impl AtomError {
    /// The text that describes this error to the user.
    pub fn message(&self) -> (m: String)
        ensures
            m@ == atom_error_text(*self),
    {
        match self {
            AtomError::UnknownAtom(m) => prefixed("未知原子: ", m.as_str()),
            AtomError::InvalidArgs(m) => prefixed("参数错误: ", m.as_str()),
            AtomError::ExecutionFailed(m) => prefixed("执行失败: ", m.as_str()),
            AtomError::NotEnabled => "原子未启用".to_string(),
            AtomError::LlmError(m) => prefixed("LLM错误: ", m.as_str()),
        }
    }

    /// An LLM failure met while running an atom, described by its text.
    pub fn from_llm(err: LlmError) -> (e: AtomError)
        ensures
            e matches AtomError::LlmError(m) && m@ == llm_error_text(err),
    {
        AtomError::LlmError(err.message())
    }
}

/// A tool the model may call: its name and what it does.
pub trait Atom {
    /// The name under which the atom is registered.
    spec fn atom_name(&self) -> Seq<char>;

    /// What the atom does.
    spec fn atom_description(&self) -> Seq<char>;

    fn name(&self) -> (n: &'static str)
        ensures
            n@ == self.atom_name(),
    ;

    fn description(&self) -> (d: &'static str)
        ensures
            d@ == self.atom_description(),
    ;
}

impl<T: Atom> Atom for Box<T> {
    open spec fn atom_name(&self) -> Seq<char> {
        (**self).atom_name()
    }

    open spec fn atom_description(&self) -> Seq<char> {
        (**self).atom_description()
    }

    fn name(&self) -> (n: &'static str) {
        (**self).name()
    }

    fn description(&self) -> (d: &'static str) {
        (**self).description()
    }
}

/// Runs a shell command.
pub struct ShellExec;

/// Reads a file.
pub struct FileRead;

/// Creates or overwrites a file.
pub struct FileWrite;

/// Extracts the text of an image with a vision model.
pub struct ImageOCR;

/// Searches files for lines that contain a text.
pub struct Grep;

/// Finds files whose paths match a glob pattern.
pub struct Glob;

impl Atom for Grep {
    open spec fn atom_name(&self) -> Seq<char> {
        "grep"@
    }

    open spec fn atom_description(&self) -> Seq<char> {
        "Searches files for lines that contain a text pattern."@
    }

    fn name(&self) -> (n: &'static str) {
        "grep"
    }

    fn description(&self) -> (d: &'static str) {
        "Searches files for lines that contain a text pattern."
    }
}

impl Atom for Glob {
    open spec fn atom_name(&self) -> Seq<char> {
        "glob"@
    }

    open spec fn atom_description(&self) -> Seq<char> {
        "Finds files whose paths match a glob pattern."@
    }

    fn name(&self) -> (n: &'static str) {
        "glob"
    }

    fn description(&self) -> (d: &'static str) {
        "Finds files whose paths match a glob pattern."
    }
}

impl Atom for ShellExec {
    open spec fn atom_name(&self) -> Seq<char> {
        "shell_exec"@
    }

    open spec fn atom_description(&self) -> Seq<char> {
        "Executes a shell command and returns the output."@
    }

    fn name(&self) -> (n: &'static str) {
        "shell_exec"
    }

    fn description(&self) -> (d: &'static str) {
        "Executes a shell command and returns the output."
    }
}

impl Atom for FileRead {
    open spec fn atom_name(&self) -> Seq<char> {
        "file_read"@
    }

    open spec fn atom_description(&self) -> Seq<char> {
        "Reads the content of a file."@
    }

    fn name(&self) -> (n: &'static str) {
        "file_read"
    }

    fn description(&self) -> (d: &'static str) {
        "Reads the content of a file."
    }
}

impl Atom for FileWrite {
    open spec fn atom_name(&self) -> Seq<char> {
        "file_write"@
    }

    open spec fn atom_description(&self) -> Seq<char> {
        "Creates or overwrites a file with content."@
    }

    fn name(&self) -> (n: &'static str) {
        "file_write"
    }

    fn description(&self) -> (d: &'static str) {
        "Creates or overwrites a file with content."
    }
}

impl Atom for ImageOCR {
    open spec fn atom_name(&self) -> Seq<char> {
        "image_ocr"@
    }

    open spec fn atom_description(&self) -> Seq<char> {
        "Extract text from an image file using vision AI. Supports JPEG, PNG, WebP formats."@
    }

    fn name(&self) -> (n: &'static str) {
        "image_ocr"
    }

    fn description(&self) -> (d: &'static str) {
        "Extract text from an image file using vision AI. Supports JPEG, PNG, WebP formats."
    }
}


/// One parameter of a tool: its name, JSON type and description.
#[derive(Debug)]
pub struct ParamProperty {
    pub name: String,
    pub param_type: String,
    pub description: String,
}

/// The JSON schema of the arguments of a tool: an object with the given
/// properties, of which those in `required` must be present.
#[derive(Debug)]
pub struct ParameterSchema {
    pub schema_type: String,
    pub properties: Vec<ParamProperty>,
    pub required: Vec<String>,
}

/// A parameter as plain text: name, type, description.
pub type PropertyView = (Seq<char>, Seq<char>, Seq<char>);

/// A parameter schema as plain text.
pub struct SchemaView {
    pub schema_type: Seq<char>,
    pub properties: Seq<PropertyView>,
    pub required: Seq<Seq<char>>,
}

impl View for ParamProperty {
    type V = PropertyView;

    open spec fn view(&self) -> PropertyView {
        (self.name@, self.param_type@, self.description@)
    }
}

impl View for ParameterSchema {
    type V = SchemaView;

    open spec fn view(&self) -> SchemaView {
        SchemaView {
            schema_type: self.schema_type@,
            properties: self.properties@.map_values(|p: ParamProperty| p@),
            required: self.required@.map_values(|s: String| s@),
        }
    }
}

/// The parameters announced for the atom called `name`; an atom without
/// parameters of its own gets an empty object schema.
pub open spec fn schema_for(name: Seq<char>) -> SchemaView {
    if name == "shell_exec"@ {
        SchemaView {
            schema_type: "object"@,
            properties: seq![("command"@, "string"@, "The shell command to execute"@)],
            required: seq!["command"@],
        }
    } else if name == "file_read"@ {
        SchemaView {
            schema_type: "object"@,
            properties: seq![("path"@, "string"@, "The path to the file to read"@)],
            required: seq!["path"@],
        }
    } else if name == "file_write"@ {
        SchemaView {
            schema_type: "object"@,
            properties: seq![
                ("path"@, "string"@, "The path to the file to write"@),
                ("content"@, "string"@, "The content to write to the file"@),
            ],
            required: seq!["path"@, "content"@],
        }
    } else if name == "image_ocr"@ {
        SchemaView {
            schema_type: "object"@,
            properties: seq![
                ("path"@, "string"@, "The path to the image file (JPEG, PNG, WebP supported)"@),
                ("prompt"@, "string"@, "Optional prompt for OCR (default: '请提取这张图片中的文字')"@),
            ],
            required: seq!["path"@],
        }
    } else if name == "grep"@ {
        SchemaView {
            schema_type: "object"@,
            properties: seq![
                ("pattern"@, "string"@, "The text to search for"@),
                ("path"@, "string"@, "The file or directory to search"@),
            ],
            required: seq!["pattern"@, "path"@],
        }
    } else if name == "glob"@ {
        SchemaView {
            schema_type: "object"@,
            properties: seq![
                ("pattern"@, "string"@, "The glob pattern, e.g. src/**/*.rs"@),
                ("path"@, "string"@, "The directory to search from (default: the current directory)"@),
            ],
            required: seq!["pattern"@],
        }
    } else {
        SchemaView { schema_type: "object"@, properties: Seq::empty(), required: Seq::empty() }
    }
}

/// The names of the properties of a schema, in order.
pub open spec fn property_names(s: SchemaView) -> Seq<Seq<char>> {
    s.properties.map_values(|p: PropertyView| p.0)
}

/// Every announced schema describes an object whose required arguments are
/// among its properties, with no property named twice and every property a
/// string; and the properties announced for each built-in atom are named
/// after the arguments that atom reads: `command` for `shell_exec`, `path`
/// for `file_read`, `path` and `content` for `file_write`, `path` and
/// `prompt` for `image_ocr`, `pattern` and `path` for `grep` and `glob`.
pub proof fn lemma_schemas_name_the_arguments(name: Seq<char>)
    ensures
        schema_for(name).schema_type == "object"@,
        forall|i: int| 0 <= i < schema_for(name).required.len() ==>
            property_names(schema_for(name)).contains(#[trigger] schema_for(name).required[i]),
        forall|i: int, j: int| 0 <= i < j < schema_for(name).properties.len() ==>
            #[trigger] schema_for(name).properties[i].0 != #[trigger] schema_for(name).properties[j].0,
        forall|i: int| 0 <= i < schema_for(name).properties.len() ==>
            (#[trigger] schema_for(name).properties[i]).1 == "string"@,
        property_names(schema_for("shell_exec"@)) == seq!["command"@],
        property_names(schema_for("file_read"@)) == seq!["path"@],
        property_names(schema_for("file_write"@)) == seq!["path"@, "content"@],
        property_names(schema_for("image_ocr"@)) == seq!["path"@, "prompt"@],
        property_names(schema_for("grep"@)) == seq!["pattern"@, "path"@],
        property_names(schema_for("glob"@)) == seq!["pattern"@, "path"@],
        schema_for("shell_exec"@).required == seq!["command"@],
        schema_for("file_read"@).required == seq!["path"@],
        schema_for("file_write"@).required == seq!["path"@, "content"@],
        schema_for("image_ocr"@).required == seq!["path"@],
        schema_for("grep"@).required == seq!["pattern"@, "path"@],
        schema_for("glob"@).required == seq!["pattern"@],
{
    reveal_strlit("shell_exec");
    reveal_strlit("file_read");
    reveal_strlit("file_write");
    reveal_strlit("image_ocr");
    reveal_strlit("grep");
    reveal_strlit("glob");
    reveal_strlit("command");
    reveal_strlit("path");
    reveal_strlit("content");
    reveal_strlit("prompt");
    reveal_strlit("pattern");
    assert("path"@.len() == 4 && "content"@.len() == 7 && "prompt"@.len() == 6 && "pattern"@.len() == 7);
    assert("pattern"@[1] != "content"@[1]);
    let names = seq!["shell_exec"@, "file_read"@, "file_write"@, "image_ocr"@, "grep"@, "glob"@];
    assert forall|i: int, j: int| 0 <= i < j < 6 implies #[trigger] names[i] != #[trigger] names[j] by {
        assert(names[i][0] != names[j][0] || names[i][1] != names[j][1] || names[i].len() != names[j].len());
    }
    assert(names[0] != names[1] && names[0] != names[2] && names[1] != names[2] && names[0] != names[3]);
    assert(names[1] != names[3] && names[2] != names[3] && names[0] != names[4] && names[1] != names[4]);
    assert(names[2] != names[4] && names[3] != names[4] && names[0] != names[5] && names[1] != names[5]);
    assert(names[2] != names[5] && names[3] != names[5] && names[4] != names[5]);
    assert(property_names(schema_for("shell_exec"@)) =~= seq!["command"@]);
    assert(property_names(schema_for("file_read"@)) =~= seq!["path"@]);
    assert(property_names(schema_for("file_write"@)) =~= seq!["path"@, "content"@]);
    assert(property_names(schema_for("image_ocr"@)) =~= seq!["path"@, "prompt"@]);
    assert(property_names(schema_for("grep"@)) =~= seq!["pattern"@, "path"@]);
    assert(property_names(schema_for("glob"@)) =~= seq!["pattern"@, "path"@]);
    let s = schema_for(name);
    let ns = property_names(s);
    assert forall|i: int| 0 <= i < s.required.len() implies ns.contains(#[trigger] s.required[i]) by {
        if s.required[i] == s.properties[0].0 {
            assert(ns[0] == s.required[i]);
        } else {
            assert(ns[1] == s.required[i]);
        }
    }
}

fn property(name: &str, param_type: &str, description: &str) -> (p: ParamProperty)
    ensures
        p@ == (name@, param_type@, description@),
{
    ParamProperty {
        name: name.to_string(),
        param_type: param_type.to_string(),
        description: description.to_string(),
    }
}

/// The parameter schema announced for the atom called `name`.
pub fn parameter_schema(name: &str) -> (s: ParameterSchema)
    ensures
        s@ == schema_for(name@),
{
    let mut properties: Vec<ParamProperty> = Vec::new();
    let mut required: Vec<String> = Vec::new();
    if same_text(name, "shell_exec") {
        properties.push(property("command", "string", "The shell command to execute"));
        required.push("command".to_string());
    } else if same_text(name, "file_read") {
        properties.push(property("path", "string", "The path to the file to read"));
        required.push("path".to_string());
    } else if same_text(name, "file_write") {
        properties.push(property("path", "string", "The path to the file to write"));
        properties.push(property("content", "string", "The content to write to the file"));
        required.push("path".to_string());
        required.push("content".to_string());
    } else if same_text(name, "image_ocr") {
        properties.push(
            property("path", "string", "The path to the image file (JPEG, PNG, WebP supported)"),
        );
        properties.push(
            property("prompt", "string", "Optional prompt for OCR (default: '请提取这张图片中的文字')"),
        );
        required.push("path".to_string());
    } else if same_text(name, "grep") {
        properties.push(property("pattern", "string", "The text to search for"));
        properties.push(property("path", "string", "The file or directory to search"));
        required.push("pattern".to_string());
        required.push("path".to_string());
    } else if same_text(name, "glob") {
        properties.push(property("pattern", "string", "The glob pattern, e.g. src/**/*.rs"));
        properties.push(
            property("path", "string", "The directory to search from (default: the current directory)"),
        );
        required.push("pattern".to_string());
    }
    let s = ParameterSchema { schema_type: "object".to_string(), properties, required };
    assert(s@.properties =~= schema_for(name@).properties);
    assert(s@.required =~= schema_for(name@).required);
    s
}


impl Clone for ParamProperty {
    fn clone(&self) -> (r: Self)
        ensures
            r@ == self@,
    {
        ParamProperty {
            name: self.name.clone(),
            param_type: self.param_type.clone(),
            description: self.description.clone(),
        }
    }
}

impl Clone for ParameterSchema {
    fn clone(&self) -> (r: Self)
        ensures
            r@ == self@,
    {
        let mut properties: Vec<ParamProperty> = Vec::new();
        let mut i: usize = 0;
        while i < self.properties.len()
            invariant
                i <= self.properties@.len(),
                properties@.len() == i,
                forall|k: int| 0 <= k < i ==> (#[trigger] properties@[k])@ == self.properties@[k]@,
            decreases self.properties@.len() - i,
        {
            properties.push(self.properties[i].clone());
            i = i + 1;
        }
        let mut required: Vec<String> = Vec::new();
        let mut j: usize = 0;
        while j < self.required.len()
            invariant
                j <= self.required@.len(),
                required@.len() == j,
                forall|k: int| 0 <= k < j ==> (#[trigger] required@[k])@ == self.required@[k]@,
            decreases self.required@.len() - j,
        {
            required.push(self.required[j].clone());
            j = j + 1;
        }
        let r = ParameterSchema { schema_type: self.schema_type.clone(), properties, required };
        assert(r@.properties =~= self@.properties);
        assert(r@.required =~= self@.required);
        r
    }
}

/// A function offered to the model: name, description and parameters.
#[derive(Debug)]
pub struct FunctionDefinition {
    pub name: String,
    pub description: String,
    pub parameters: ParameterSchema,
}

/// A tool offered to the model (OpenAI format, of type `"function"`).
#[derive(Debug)]
pub struct ToolDefinition {
    pub tool_type: String,
    pub function: FunctionDefinition,
}

/// A tool definition as plain text.
pub struct ToolDefinitionView {
    pub tool_type: Seq<char>,
    pub name: Seq<char>,
    pub description: Seq<char>,
    pub parameters: SchemaView,
}

impl View for ToolDefinition {
    type V = ToolDefinitionView;

    open spec fn view(&self) -> ToolDefinitionView {
        ToolDefinitionView {
            tool_type: self.tool_type@,
            name: self.function.name@,
            description: self.function.description@,
            parameters: self.function.parameters@,
        }
    }
}

/// The definition announced for an atom with the given name and description.
pub open spec fn atom_tool(name: Seq<char>, description: Seq<char>) -> ToolDefinitionView {
    ToolDefinitionView {
        tool_type: "function"@,
        name,
        description,
        parameters: schema_for(name),
    }
}

impl Clone for ToolDefinition {
    fn clone(&self) -> (r: Self)
        ensures
            r@ == self@,
    {
        ToolDefinition {
            tool_type: self.tool_type.clone(),
            function: FunctionDefinition {
                name: self.function.name.clone(),
                description: self.function.description.clone(),
                parameters: self.function.parameters.clone(),
            },
        }
    }
}

impl ToolDefinition {
    /// A tool of type `"function"` with the given name, description and
    /// parameters.
    pub fn new(name: String, description: String, parameters: ParameterSchema) -> (t: ToolDefinition)
        ensures
            t@ == (ToolDefinitionView {
                tool_type: "function"@,
                name: name@,
                description: description@,
                parameters: parameters@,
            }),
    {
        ToolDefinition {
            tool_type: "function".to_string(),
            function: FunctionDefinition { name, description, parameters },
        }
    }

    /// The definition announced for an atom: its name, its description, and
    /// the parameter schema of that name.
    pub fn for_atom(name: &str, description: &str) -> (t: ToolDefinition)
        ensures
            t@ == atom_tool(name@, description@),
    {
        ToolDefinition::new(name.to_string(), description.to_string(), parameter_schema(name))
    }
}

/// Whether some atom of `s` is called `name`.
pub open spec fn holds_name<A: Atom>(s: Seq<A>, name: Seq<char>) -> bool {
    exists|i: int| 0 <= i < s.len() && (#[trigger] s[i]).atom_name() == name
}

/// Whether no two atoms of `s` share a name.
pub open spec fn names_unique<A: Atom>(s: Seq<A>) -> bool {
    forall|i: int, j: int|
        0 <= i < s.len() && 0 <= j < s.len() && i != j ==> (#[trigger] s[i]).atom_name() != (#[trigger] s[j]).atom_name()
}

/// The registry after registering `atom` in `s`: it takes the place of the
/// atom of the same name, or comes last when there is none.
pub open spec fn registered<A: Atom>(s: Seq<A>, atom: A) -> Seq<A> {
    if holds_name(s, atom.atom_name()) {
        s.update(choose|i: int| 0 <= i < s.len() && (#[trigger] s[i]).atom_name() == atom.atom_name(), atom)
    } else {
        s.push(atom)
    }
}

/// Registering an atom keeps the names unique; afterwards the atom is the
/// one registered under its name, and every other name is registered exactly
/// when it was before.
pub proof fn lemma_register_then_get<A: Atom>(s: Seq<A>, atom: A)
    requires
        names_unique(s),
    ensures
        names_unique(registered(s, atom)),
        holds_name(registered(s, atom), atom.atom_name()),
        forall|i: int| 0 <= i < registered(s, atom).len() && (#[trigger] registered(s, atom)[i]).atom_name() == atom.atom_name()
            ==> registered(s, atom)[i] == atom,
        forall|n: Seq<char>| n != atom.atom_name() ==> holds_name(registered(s, atom), n) == holds_name(s, n),
{
    let r = registered(s, atom);
    if holds_name(s, atom.atom_name()) {
        let c = choose|i: int| 0 <= i < s.len() && (#[trigger] s[i]).atom_name() == atom.atom_name();
        assert(r == s.update(c, atom));
        assert(r[c] == atom);
        assert forall|n: Seq<char>| n != atom.atom_name() implies holds_name(r, n) == holds_name(s, n) by {
            if holds_name(r, n) {
                let i = choose|i: int| 0 <= i < r.len() && (#[trigger] r[i]).atom_name() == n;
                assert(i != c);
                assert(s[i] == r[i]);
            }
            if holds_name(s, n) {
                let i = choose|i: int| 0 <= i < s.len() && (#[trigger] s[i]).atom_name() == n;
                assert(i != c);
                assert(s[i] == r[i]);
            }
        }
        assert forall|i: int, j: int|
            0 <= i < r.len() && 0 <= j < r.len() && i != j implies (#[trigger] r[i]).atom_name() != (#[trigger] r[j]).atom_name() by {
            if i != c && j != c {
                assert(s[i].atom_name() != s[j].atom_name());
            } else if i == c {
                assert(s[j].atom_name() != s[c].atom_name());
            } else {
                assert(s[i].atom_name() != s[c].atom_name());
            }
        }
        assert forall|i: int| 0 <= i < r.len() && (#[trigger] r[i]).atom_name() == atom.atom_name() implies r[i] == atom by {
            if i != c {
                assert(s[i].atom_name() != s[c].atom_name());
            }
        }
    } else {
        assert(r == s.push(atom));
        assert(r[s.len() as int] == atom);
        assert forall|n: Seq<char>| n != atom.atom_name() implies holds_name(r, n) == holds_name(s, n) by {
            if holds_name(r, n) {
                let i = choose|i: int| 0 <= i < r.len() && (#[trigger] r[i]).atom_name() == n;
                assert(i < s.len());
                assert(s[i] == r[i]);
            }
            if holds_name(s, n) {
                let i = choose|i: int| 0 <= i < s.len() && (#[trigger] s[i]).atom_name() == n;
                assert(s[i] == r[i]);
            }
        }
        assert forall|i: int, j: int|
            0 <= i < r.len() && 0 <= j < r.len() && i != j implies (#[trigger] r[i]).atom_name() != (#[trigger] r[j]).atom_name() by {
            if i < s.len() && j < s.len() {
                assert(s[i].atom_name() != s[j].atom_name());
            } else if i < s.len() {
                assert(s[i] == r[i]);
            } else {
                assert(s[j] == r[j]);
            }
        }
        assert forall|i: int| 0 <= i < r.len() && (#[trigger] r[i]).atom_name() == atom.atom_name() implies r[i] == atom by {
            if i < s.len() {
                assert(s[i] == r[i]);
            }
        }
    }
}

/// The atoms that the model may call, by name; no two share a name, and they
/// are kept in the order in which their names were first registered.
pub struct AtomRegistry<A: Atom> {
    atoms: Vec<A>,
}

impl<A: Atom> View for AtomRegistry<A> {
    type V = Seq<A>;

    closed spec fn view(&self) -> Seq<A> {
        self.atoms@
    }
}

impl<A: Atom> AtomRegistry<A> {
    #[verifier::type_invariant]
    closed spec fn unique_names(self) -> bool {
        names_unique(self.atoms@)
    }

    /// An empty registry.
    pub fn new() -> (r: AtomRegistry<A>)
        ensures
            r@ == Seq::<A>::empty(),
            names_unique(r@),
    {
        AtomRegistry { atoms: Vec::new() }
    }

    /// Registers `atom` under its name, replacing any atom of that name.
    pub fn register(&mut self, atom: A)
        ensures
            final(self)@ == registered(old(self)@, atom),
            names_unique(old(self)@),
            names_unique(final(self)@),
            final(self)@.len() == old(self)@.len() + (if holds_name(old(self)@, atom.atom_name()) { 0int } else { 1int }),
            holds_name(final(self)@, atom.atom_name()),
            forall|i: int| 0 <= i < final(self)@.len() && (#[trigger] final(self)@[i]).atom_name() == atom.atom_name()
                ==> final(self)@[i] == atom,
            forall|n: Seq<char>| n != atom.atom_name() ==> holds_name(final(self)@, n) == holds_name(old(self)@, n),
    {
        proof {
            use_type_invariant(&*self);
        }
        let ghost s_old = self.atoms@;
        let mut atoms: Vec<A> = Vec::new();
        std::mem::swap(&mut atoms, &mut self.atoms);
        let name = atom.name();
        let n = atoms.len();
        let mut i: usize = 0;
        while i < n
            invariant
                n == atoms@.len(),
                i <= n,
                names_unique(atoms@),
                atoms@ == old(self).atoms@,
                name@ == atom.atom_name(),
                forall|k: int| 0 <= k < i ==> (#[trigger] atoms@[k]).atom_name() != name@,
            decreases n - i,
        {
            if same_text(atoms[i].name(), name) {
                let ghost s = atoms@;
                proof {
                    let c = choose|j: int| 0 <= j < s.len() && (#[trigger] s[j]).atom_name() == atom.atom_name();
                    assert(s[i as int].atom_name() == atom.atom_name());
                    assert(c == i);
                }
                atoms.set(i, atom);
                assert forall|p: int, q: int|
                    0 <= p < atoms@.len() && 0 <= q < atoms@.len() && p != q implies
                    (#[trigger] atoms@[p]).atom_name() != (#[trigger] atoms@[q]).atom_name() by {
                    if p != i && q != i {
                        assert(s[p].atom_name() != s[q].atom_name());
                    }
                }
                self.atoms = atoms;
                proof {
                    lemma_register_then_get(old(self).atoms@, atom);
                }
                return;
            }
            i = i + 1;
        }
        let ghost s = atoms@;
        assert(!holds_name(s, atom.atom_name()));
        atoms.push(atom);
        assert forall|p: int, q: int|
            0 <= p < atoms@.len() && 0 <= q < atoms@.len() && p != q implies
            (#[trigger] atoms@[p]).atom_name() != (#[trigger] atoms@[q]).atom_name() by {
            if p < n && q < n {
                assert(s[p].atom_name() != s[q].atom_name());
            }
        }
        self.atoms = atoms;
        proof {
            lemma_register_then_get(s_old, atom);
        }
    }

    /// The atom registered under `name`, if any.
    pub fn get(&self, name: &str) -> (r: Option<&A>)
        ensures
            match r {
                Some(a) => exists|i: int| 0 <= i < self@.len() && self@[i] == *a && a.atom_name() == name@,
                None => !holds_name(self@, name@),
            },
            names_unique(self@),
    {
        proof {
            use_type_invariant(self);
        }
        let n = self.atoms.len();
        let mut i: usize = 0;
        while i < n
            invariant
                n == self.atoms@.len(),
                i <= n,
                names_unique(self.atoms@),
                forall|k: int| 0 <= k < i ==> (#[trigger] self.atoms@[k]).atom_name() != name@,
            decreases n - i,
        {
            if same_text(self.atoms[i].name(), name) {
                let a = &self.atoms[i];
                assert(self@[i as int] == *a && a.atom_name() == name@);
                return Some(a);
            }
            i = i + 1;
        }
        None
    }

    /// The name and description of each registered atom.
    pub fn list(&self) -> (r: Vec<(&'static str, &'static str)>)
        ensures
            names_unique(self@),
            r@.len() == self@.len(),
            forall|i: int| 0 <= i < r@.len() ==> (#[trigger] r@[i]).0@ == self@[i].atom_name()
                && r@[i].1@ == self@[i].atom_description(),
    {
        proof {
            use_type_invariant(self);
        }
        let mut r: Vec<(&'static str, &'static str)> = Vec::new();
        let mut i: usize = 0;
        while i < self.atoms.len()
            invariant
                i <= self.atoms@.len(),
                r@.len() == i,
                forall|k: int| 0 <= k < i ==> (#[trigger] r@[k]).0@ == self.atoms@[k].atom_name()
                    && r@[k].1@ == self.atoms@[k].atom_description(),
            decreases self.atoms@.len() - i,
        {
            r.push((self.atoms[i].name(), self.atoms[i].description()));
            i = i + 1;
        }
        r
    }

    /// The tool definitions announced to the model, one per registered atom.
    pub fn to_tool_definitions(&self) -> (r: Vec<ToolDefinition>)
        ensures
            r@.len() == self@.len(),
            forall|i: int| 0 <= i < r@.len() ==> (#[trigger] r@[i])@ == atom_tool(
                self@[i].atom_name(),
                self@[i].atom_description(),
            ),
    {
        let mut r: Vec<ToolDefinition> = Vec::new();
        let mut i: usize = 0;
        while i < self.atoms.len()
            invariant
                i <= self.atoms@.len(),
                r@.len() == i,
                forall|k: int| 0 <= k < i ==> (#[trigger] r@[k])@ == atom_tool(
                    self.atoms@[k].atom_name(),
                    self.atoms@[k].atom_description(),
                ),
            decreases self.atoms@.len() - i,
        {
            r.push(ToolDefinition::for_atom(self.atoms[i].name(), self.atoms[i].description()));
            i = i + 1;
        }
        r
    }
}

impl<A: Atom> Default for AtomRegistry<A> {
    fn default() -> (r: Self)
        ensures
            r@ == Seq::<A>::empty(),
    {
        Self::new()
    }
}


/// One of the built-in atoms.
pub enum BuiltinAtom {
    ShellExec(ShellExec),
    FileRead(FileRead),
    FileWrite(FileWrite),
    ImageOCR(ImageOCR),
    Grep(Grep),
    Glob(Glob),
}

impl Atom for BuiltinAtom {
    open spec fn atom_name(&self) -> Seq<char> {
        match self {
            BuiltinAtom::ShellExec(a) => a.atom_name(),
            BuiltinAtom::FileRead(a) => a.atom_name(),
            BuiltinAtom::FileWrite(a) => a.atom_name(),
            BuiltinAtom::ImageOCR(a) => a.atom_name(),
            BuiltinAtom::Grep(a) => a.atom_name(),
            BuiltinAtom::Glob(a) => a.atom_name(),
        }
    }

    open spec fn atom_description(&self) -> Seq<char> {
        match self {
            BuiltinAtom::ShellExec(a) => a.atom_description(),
            BuiltinAtom::FileRead(a) => a.atom_description(),
            BuiltinAtom::FileWrite(a) => a.atom_description(),
            BuiltinAtom::ImageOCR(a) => a.atom_description(),
            BuiltinAtom::Grep(a) => a.atom_description(),
            BuiltinAtom::Glob(a) => a.atom_description(),
        }
    }

    fn name(&self) -> (n: &'static str) {
        match self {
            BuiltinAtom::ShellExec(a) => a.name(),
            BuiltinAtom::FileRead(a) => a.name(),
            BuiltinAtom::FileWrite(a) => a.name(),
            BuiltinAtom::ImageOCR(a) => a.name(),
            BuiltinAtom::Grep(a) => a.name(),
            BuiltinAtom::Glob(a) => a.name(),
        }
    }

    fn description(&self) -> (d: &'static str) {
        match self {
            BuiltinAtom::ShellExec(a) => a.description(),
            BuiltinAtom::FileRead(a) => a.description(),
            BuiltinAtom::FileWrite(a) => a.description(),
            BuiltinAtom::ImageOCR(a) => a.description(),
            BuiltinAtom::Grep(a) => a.description(),
            BuiltinAtom::Glob(a) => a.description(),
        }
    }
}

/// The names of the built-in atoms, in the order in which a registry of
/// them holds them.
pub open spec fn builtin_names() -> Seq<Seq<char>> {
    seq!["shell_exec"@, "file_read"@, "file_write"@, "image_ocr"@, "grep"@, "glob"@]
}

/// The names of `names` that the list `active` switches on, in order.
pub open spec fn enabled_names(names: Seq<Seq<char>>, active: Seq<String>) -> Seq<Seq<char>>
    decreases names.len(),
{
    if names.len() == 0 {
        Seq::empty()
    } else {
        let before = enabled_names(names.drop_last(), active);
        if atom_enabled(active, names.last()) {
            before.push(names.last())
        } else {
            before
        }
    }
}

/// The names of the atoms of `s`, in order.
pub open spec fn atom_names<A: Atom>(s: Seq<A>) -> Seq<Seq<char>> {
    s.map_values(|a: A| a.atom_name())
}

proof fn lemma_builtin_names_distinct()
    ensures
        builtin_names().len() == 6,
        forall|i: int, j: int|
            0 <= i < 6 && 0 <= j < 6 && i != j ==> #[trigger] builtin_names()[i] != #[trigger] builtin_names()[j],
{
    reveal_strlit("shell_exec");
    reveal_strlit("file_read");
    reveal_strlit("file_write");
    reveal_strlit("image_ocr");
    reveal_strlit("grep");
    reveal_strlit("glob");
    let ns = builtin_names();
    assert(ns[0] == "shell_exec"@ && ns[1] == "file_read"@ && ns[2] == "file_write"@);
    assert(ns[3] == "image_ocr"@ && ns[4] == "grep"@ && ns[5] == "glob"@);
    assert("shell_exec"@.len() == 10 && "file_write"@.len() == 10);
    assert("file_read"@.len() == 9 && "image_ocr"@.len() == 9);
    assert("grep"@.len() == 4 && "glob"@.len() == 4);
    assert("shell_exec"@[0] == 's' && "file_write"@[0] == 'f');
    assert("file_read"@[0] == 'f' && "image_ocr"@[0] == 'i');
    assert("grep"@[1] == 'r' && "glob"@[1] == 'l');
}

/// What each built-in atom is announced to do, in the order of
/// `builtin_names`.
pub open spec fn builtin_descriptions() -> Seq<Seq<char>> {
    seq![
        "Executes a shell command and returns the output."@,
        "Reads the content of a file."@,
        "Creates or overwrites a file with content."@,
        "Extract text from an image file using vision AI. Supports JPEG, PNG, WebP formats."@,
        "Searches files for lines that contain a text pattern."@,
        "Finds files whose paths match a glob pattern."@,
    ]
}

/// Every built-in atom is one of the six built-in names, and the atom that
/// bears the name `builtin_names()[i]` is described by
/// `builtin_descriptions()[i]`: `file_write`, for one, creates or
/// overwrites a file.
pub proof fn lemma_builtin_descriptions(b: BuiltinAtom)
    ensures
        exists|i: int| 0 <= i < 6 && builtin_names()[i] == b.atom_name(),
        forall|i: int| 0 <= i < 6 && #[trigger] builtin_names()[i] == b.atom_name()
            ==> builtin_descriptions()[i] == b.atom_description(),
{
    lemma_builtin_names_distinct();
    let k: int = match b {
        BuiltinAtom::ShellExec(_) => 0,
        BuiltinAtom::FileRead(_) => 1,
        BuiltinAtom::FileWrite(_) => 2,
        BuiltinAtom::ImageOCR(_) => 3,
        BuiltinAtom::Grep(_) => 4,
        BuiltinAtom::Glob(_) => 5,
    };
    assert(builtin_names()[k] == b.atom_name());
    assert(builtin_descriptions()[k] == b.atom_description());
}

proof fn lemma_all_enabled(names: Seq<Seq<char>>, active: Seq<String>)
    requires
        active.len() == 0,
    ensures
        enabled_names(names, active) == names,
    decreases names.len(),
{
    if names.len() > 0 {
        lemma_all_enabled(names.drop_last(), active);
        assert(names.drop_last().push(names.last()) =~= names);
    }
}

/// The `i`-th built-in atom.
fn builtin_at(i: usize) -> (a: BuiltinAtom)
    requires
        i < 6,
    ensures
        a.atom_name() == builtin_names()[i as int],
{
    if i == 0 {
        BuiltinAtom::ShellExec(ShellExec)
    } else if i == 1 {
        BuiltinAtom::FileRead(FileRead)
    } else if i == 2 {
        BuiltinAtom::FileWrite(FileWrite)
    } else if i == 3 {
        BuiltinAtom::ImageOCR(ImageOCR)
    } else if i == 4 {
        BuiltinAtom::Grep(Grep)
    } else {
        BuiltinAtom::Glob(Glob)
    }
}

/// A registry of the built-in atoms that `active` switches on.
fn builtins_enabled_by(active: &Vec<String>) -> (r: AtomRegistry<BuiltinAtom>)
    ensures
        atom_names(r@) == enabled_names(builtin_names(), active@),
{
    proof {
        lemma_builtin_names_distinct();
    }
    let mut registry: AtomRegistry<BuiltinAtom> = AtomRegistry::new();
    assert(atom_names(registry@) =~= enabled_names(builtin_names().take(0), active@));
    let mut i: usize = 0;
    while i < 6
        invariant
            i <= 6,
            builtin_names().len() == 6,
            forall|p: int, q: int|
                0 <= p < 6 && 0 <= q < 6 && p != q ==> #[trigger] builtin_names()[p] != #[trigger] builtin_names()[q],
            atom_names(registry@) == enabled_names(builtin_names().take(i as int), active@),
            forall|j: int| 0 <= j < registry@.len() ==> exists|k: int| 0 <= k < i && #[trigger] registry@[j].atom_name() == builtin_names()[k],
        decreases 6 - i,
    {
        let ghost names = builtin_names();
        assert(names.take(i + 1).drop_last() =~= names.take(i as int));
        assert(names.take(i + 1).last() == names[i as int]);
        let atom = builtin_at(i);
        if crate::config::enabled_in(active, atom.name()) {
            let ghost before = registry@;
            assert(!holds_name(before, atom.atom_name())) by {
                if holds_name(before, atom.atom_name()) {
                    let j = choose|j: int| 0 <= j < before.len() && (#[trigger] before[j]).atom_name() == atom.atom_name();
                    let k = choose|k: int| 0 <= k < i && #[trigger] before[j].atom_name() == builtin_names()[k];
                    assert(builtin_names()[k] != builtin_names()[i as int]);
                }
            }
            registry.register(atom);
            assert(registry@ == before.push(atom));
            assert(atom_names(registry@) =~= atom_names(before).push(names[i as int]));
            assert forall|j: int| 0 <= j < registry@.len() implies exists|k: int|
                0 <= k < i + 1 && #[trigger] registry@[j].atom_name() == builtin_names()[k] by {
                if j < before.len() {
                    assert(registry@[j] == before[j]);
                    let k = choose|k: int| 0 <= k < i && #[trigger] before[j].atom_name() == builtin_names()[k];
                    assert(registry@[j].atom_name() == builtin_names()[k]);
                } else {
                    assert(registry@[j].atom_name() == builtin_names()[i as int]);
                }
            }
        }
        i = i + 1;
    }
    assert(builtin_names().take(6) =~= builtin_names());
    registry
}

/// A registry holding every built-in atom: shell execution, file reading,
/// file writing, image OCR, grep and glob, in that order.
pub fn create_default_registry() -> (r: AtomRegistry<BuiltinAtom>)
    ensures
        r@.len() == 6,
        atom_names(r@) == builtin_names(),
{
    let none: Vec<String> = Vec::new();
    let r = builtins_enabled_by(&none);
    proof {
        lemma_all_enabled(builtin_names(), none@);
    }
    r
}

/// A registry holding the built-in atoms that the configuration switches on
/// (all of them when its list of active atoms is empty), in the order of
/// `builtin_names`.
pub fn create_enabled_registry(config: &crate::config::Config) -> (r: AtomRegistry<BuiltinAtom>)
    ensures
        atom_names(r@) == enabled_names(builtin_names(), config.atoms.active@),
{
    builtins_enabled_by(&config.atoms.active)
}

/// The text argument `key` of an atom call, when present.
pub fn required_arg(value: Option<&str>, key: &str) -> (r: Result<String, AtomError>)
    ensures
        match value {
            Some(v) => r matches Ok(s) && s@ == v@,
            None => r matches Err(AtomError::InvalidArgs(m)) && m@ == "Missing '"@ + key@ + "' parameter"@,
        },
{
    match value {
        Some(v) => Ok(v.to_string()),
        None => {
            let mut m = prefixed("Missing '", key);
            m.append("' parameter");
            Err(AtomError::InvalidArgs(m))
        },
    }
}

impl ShellExec {
    /// Whether a command is blank, in which case it is not run.
    pub fn is_blank_command(command: &str) -> (b: bool)
        ensures
            b == is_blank(command@),
    {
        let cs = chars_of(command);
        assert(cs@.subrange(0, cs@.len() as int) =~= cs@);
        blank_range(&cs, 0, cs.len())
    }
}

/// The prompt used for OCR when the call gives none.
pub open spec fn default_ocr_prompt() -> Seq<char> {
    "请提取这张图片中的文字"@
}

/// A decoded image of the `image` crate.
#[verifier::external_type_specification]
#[verifier::external_body]
pub struct ExDynamicImage(image::DynamicImage);

/// An image format of the `image` crate.
#[verifier::external_type_specification]
#[verifier::external_body]
pub struct ExImageFormat(image::ImageFormat);

/// A failure of the `image` crate.
#[verifier::external_type_specification]
#[verifier::external_body]
pub struct ExImageError(image::ImageError);

/// The extension of the file named by `path`, as `std::path::Path::extension`
/// finds it: the text after the last `.` of the file name, when there is one
/// that does not start the name.
pub uninterp spec fn path_extension(path: Seq<char>) -> Option<Seq<char>>;

/// The image format that the extension of `path` names, when the `image`
/// crate knows one.
pub uninterp spec fn image_format_of(path: Seq<char>) -> Option<image::ImageFormat>;

/// The error that the `image` crate reports when the extension of `path`
/// names no image format it knows.
pub uninterp spec fn image_format_error(path: Seq<char>) -> image::ImageError;

/// The image that the `image` crate decodes from `bytes` in `format`, when it
/// decodes.
pub uninterp spec fn decoded_image(bytes: Seq<u8>, format: image::ImageFormat) -> Option<image::DynamicImage>;

/// The error that the `image` crate reports when `bytes` do not decode in
/// `format`.
pub uninterp spec fn decode_error(bytes: Seq<u8>, format: image::ImageFormat) -> image::ImageError;

/// The JPEG bytes that the `image` crate writes for `img` converted to 8-bit
/// RGB, when it writes them.
pub uninterp spec fn jpeg_encoding(img: image::DynamicImage) -> Option<Seq<u8>>;

/// The error that the `image` crate reports when it cannot write `img`,
/// converted to 8-bit RGB, as JPEG.
pub uninterp spec fn jpeg_error(img: image::DynamicImage) -> image::ImageError;

/// The extension of the file named by `path` (`std::path::Path::extension`).
/// The extension of a `&str` path is a part of it, so it is valid UTF-8 and
/// converts without loss.
#[verifier::external_body]
fn file_extension(path: &str) -> (r: Option<String>)
    ensures
        r is Some <==> path_extension(path@) is Some,
        r matches Some(e) ==> path_extension(path@) == Some(e@),
{
    match std::path::Path::new(path).extension() {
        Some(e) => Some(e.to_string_lossy().into_owned()),
        None => None,
    }
}

/// The image format named by the extension of `path`
/// (`image::ImageFormat::from_path`); it fails exactly when the extension is
/// missing or unknown, with the error the crate reports for that path.
#[verifier::external_body]
fn image_format(path: &str) -> (r: Result<image::ImageFormat, image::ImageError>)
    ensures
        r is Ok <==> image_format_of(path@) is Some,
        r matches Ok(f) ==> image_format_of(path@) == Some(f),
        r matches Err(e) ==> e == image_format_error(path@),
{
    image::ImageFormat::from_path(path)
}

/// The error by which the `image` crate says that the format of an image
/// could not be determined (`ImageError::Unsupported` with
/// `ImageFormatHint::Unknown`): the one `ImageFormat::from_path` reports for
/// the empty path, which has no extension.
#[verifier::external_body]
fn undetermined_format_error() -> (e: image::ImageError)
    ensures
        e == image_format_error(""@),
{
    image::ImageError::Unsupported(image::error::ImageFormatHint::Unknown.into())
}

/// Decodes `bytes` as an image in `format`
/// (`image::load_from_memory_with_format`, with the crate's default limits).
#[verifier::external_body]
fn decode_image(bytes: &[u8], format: image::ImageFormat) -> (r: Result<image::DynamicImage, image::ImageError>)
    ensures
        r is Ok <==> decoded_image(bytes@, format) is Some,
        r matches Ok(img) ==> decoded_image(bytes@, format) == Some(img),
        r matches Err(e) ==> e == decode_error(bytes@, format),
{
    image::load_from_memory_with_format(bytes, format)
}

/// Encodes an image as JPEG: it is converted to 8-bit RGB
/// (`DynamicImage::to_rgb8`) and written in the JPEG format
/// (`ImageBuffer::write_to`); the bytes written are returned.
#[verifier::external_body]
fn encode_jpeg(img: &image::DynamicImage) -> (r: Result<Vec<u8>, image::ImageError>)
    ensures
        r is Ok <==> jpeg_encoding(*img) is Some,
        r matches Ok(v) ==> jpeg_encoding(*img) == Some(v@),
        r matches Err(e) ==> e == jpeg_error(*img),
{
    let mut buffer = std::io::Cursor::new(Vec::new());
    img.to_rgb8().write_to(&mut buffer, image::ImageFormat::Jpeg).map(|_| buffer.into_inner())
}

/// Whether the file named by `path` has an extension that is empty (a name
/// ending in `.`): such an extension says nothing of the format.
pub open spec fn empty_extension(path: Seq<char>) -> bool {
    path_extension(path) == Some(Seq::<char>::empty())
}

/// The Base64 JPEG text of the image stored at `path` with content `bytes`:
/// the format comes from the extension, then the image is decoded and
/// encoded as JPEG; `None` where the extension is empty or one of these
/// steps fails.
pub open spec fn ocr_payload(path: Seq<char>, bytes: Seq<u8>) -> Option<Seq<char>> {
    if empty_extension(path) {
        None
    } else {
        match image_format_of(path) {
            None => None,
            Some(f) => match decoded_image(bytes, f) {
                None => None,
                Some(img) => match jpeg_encoding(img) {
                    None => None,
                    Some(j) => Some(base64_of(j)),
                },
            },
        }
    }
}

/// Why the image stored at `path` with content `bytes` gives no Base64 JPEG
/// text: the words that say which step failed, and the error of that step.
/// An empty extension leaves the format undetermined, as no extension does.
pub open spec fn ocr_failure(path: Seq<char>, bytes: Seq<u8>) -> (Seq<char>, image::ImageError) {
    if empty_extension(path) {
        ("Failed to open image: "@, image_format_error(Seq::empty()))
    } else {
        match image_format_of(path) {
            None => ("Failed to open image: "@, image_format_error(path)),
            Some(f) => match decoded_image(bytes, f) {
                None => ("Failed to open image: "@, decode_error(bytes, f)),
                Some(img) => ("Failed to encode image: "@, jpeg_error(img)),
            },
        }
    }
}

/// The character of the standard Base64 alphabet for the 6-bit value `v`.
pub open spec fn base64_digit(v: int) -> char {
    if v < 26 {
        (65 + v) as char
    } else if v < 52 {
        (97 + v - 26) as char
    } else if v < 62 {
        (48 + v - 52) as char
    } else if v == 62 {
        '+'
    } else {
        '/'
    }
}

/// The standard Base64 encoding of `b` (RFC 4648, `+` and `/`, padded with
/// `=`): each group of three bytes becomes four characters.
pub open spec fn base64_of(b: Seq<u8>) -> Seq<char>
    decreases b.len(),
{
    if b.len() == 0 {
        Seq::empty()
    } else {
        let x = b[0] as int;
        if b.len() == 1 {
            seq![base64_digit(x / 4), base64_digit((x % 4) * 16), '=', '=']
        } else {
            let y = b[1] as int;
            if b.len() == 2 {
                seq![base64_digit(x / 4), base64_digit((x % 4) * 16 + y / 16), base64_digit((y % 16) * 4), '=']
            } else {
                let z = b[2] as int;
                seq![
                    base64_digit(x / 4),
                    base64_digit((x % 4) * 16 + y / 16),
                    base64_digit((y % 16) * 4 + z / 64),
                    base64_digit(z % 64),
                ] + base64_of(b.skip(3))
            }
        }
    }
}

/// Encodes `bytes` with the standard Base64 engine of the `base64` crate
/// (`general_purpose::STANDARD`, padded).
#[verifier::external_body]
fn base64_standard(bytes: &[u8]) -> (s: String)
    ensures
        s@ == base64_of(bytes@),
{
    base64::Engine::encode(&base64::engine::general_purpose::STANDARD, bytes)
}

/// What an OCR call reports: the recognized text, or why the vision model
/// failed; both name the image.
#[derive(Debug)]
pub enum OcrOutcome {
    Recognized { path: String, text: String },
    Failed { path: String, error: String },
}

impl ImageOCR {
    /// The report of an OCR call on `path` from the reply of the vision model:
    /// its text, or the description of its error.
    pub fn ocr_outcome(path: &str, reply: Result<String, LlmError>) -> (o: OcrOutcome)
        ensures
            match reply {
                Ok(t) => o matches OcrOutcome::Recognized { path: p, text } && p@ == path@ && text@ == t@,
                Err(e) => o matches OcrOutcome::Failed { path: p, error } && p@ == path@ && error@ == llm_error_text(e),
            },
    {
        match reply {
            Ok(text) => OcrOutcome::Recognized { path: path.to_string(), text },
            Err(e) => OcrOutcome::Failed { path: path.to_string(), error: e.message() },
        }
    }

    /// The prompt of an OCR call: the one given, or the default.
    pub fn prompt_or_default(prompt: Option<&str>) -> (p: String)
        ensures
            p@ == (match prompt {
                Some(q) => q@,
                None => default_ocr_prompt(),
            }),
    {
        match prompt {
            Some(q) => q.to_string(),
            None => "请提取这张图片中的文字".to_string(),
        }
    }

    /// The image stored at `path`, whose content is `bytes`, as Base64 JPEG:
    /// the format is taken from the extension of `path`, the image decoded,
    /// converted to RGB and encoded as JPEG. A failure is described by the
    /// step that failed and the `Display` text of its error.
    pub fn image_to_base64(&self, path: &str, bytes: &[u8]) -> (r: Result<String, AtomError>)
        ensures
            r is Ok <==> ocr_payload(path@, bytes@) is Some,
            r matches Ok(s) ==> ocr_payload(path@, bytes@) == Some(s@),
            r matches Err(e) ==> (e matches AtomError::ExecutionFailed(m) && exists|t: String|
                vstd::string::to_string_from_display_ensures::<image::ImageError>(&ocr_failure(path@, bytes@).1, t)
                && m@ == ocr_failure(path@, bytes@).0 + t@),
    {
        let empty = match file_extension(path) {
            Some(ext) => ext.as_str().is_empty(),
            None => false,
        };
        proof {
            if empty {
                assert(path_extension(path@).unwrap() =~= Seq::<char>::empty());
            } else if path_extension(path@) is Some {
                assert(path_extension(path@).unwrap().len() > 0);
            }
            assert(empty == empty_extension(path@));
        }
        let decoded = if empty {
            proof {
                reveal_strlit("");
                assert(""@ =~= Seq::<char>::empty());
            }
            Err(undetermined_format_error())
        } else {
            match image_format(path) {
                Ok(f) => decode_image(bytes, f),
                Err(e) => Err(e),
            }
        };
        let img = match decoded {
            Ok(img) => img,
            Err(e) => {
                assert(ocr_failure(path@, bytes@) == ("Failed to open image: "@, e));
                let t = e.to_string();
                assert(vstd::string::to_string_from_display_ensures::<image::ImageError>(&ocr_failure(path@, bytes@).1, t));
                return Err(AtomError::ExecutionFailed(prefixed("Failed to open image: ", t.as_str())));
            },
        };
        match encode_jpeg(&img) {
            Ok(jpeg) => Ok(base64_standard(jpeg.as_slice())),
            Err(e) => {
                assert(ocr_failure(path@, bytes@) == ("Failed to encode image: "@, e));
                let t = e.to_string();
                assert(vstd::string::to_string_from_display_ensures::<image::ImageError>(&ocr_failure(path@, bytes@).1, t));
                Err(AtomError::ExecutionFailed(prefixed("Failed to encode image: ", t.as_str())))
            },
        }
    }
}

} // verus!
