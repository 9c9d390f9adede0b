//! Printing a configuration module as JavaScript. The syntax tree is built
//! with `biome_js_factory` and laid out by `biome_js_formatter`; what is
//! verified here is that every text handed to them is an identifier or a
//! plain string, that lists get the separators they need, and that the tree
//! holds the tokens of the module in their order.
use crate::assemble::{ConfigView, EslintConfig, Import, ImportView};
use biome_formatter::{FormatError, Formatted, PrintError};
use biome_js_factory::make;
use biome_js_formatter::context::{JsFormatContext, JsFormatOptions};
use biome_js_syntax::{
    AnyJsCallArgument, AnyJsExpression, AnyJsModuleItem, AnyJsObjectMember, JsCallExpression,
    JsFileSource, JsModule, JsObjectExpression, JsSyntaxKind,
};
use biome_rowan::AstNode;
use vstd::prelude::*;
use vstd::string::*;

verus! {

/// `biome_js_syntax::AnyJsModuleItem`: a statement at the top of a module.
#[verifier::external_type_specification]
#[verifier::external_body]
pub struct ExAnyJsModuleItem(AnyJsModuleItem);

/// `biome_js_syntax::AnyJsObjectMember`: a member of an object literal.
#[verifier::external_type_specification]
#[verifier::external_body]
pub struct ExAnyJsObjectMember(AnyJsObjectMember);

/// `biome_js_syntax::JsObjectExpression`: an object literal.
#[verifier::external_type_specification]
#[verifier::external_body]
pub struct ExJsObjectExpression(JsObjectExpression);

/// `biome_js_syntax::JsCallExpression`: a function call.
#[verifier::external_type_specification]
#[verifier::external_body]
pub struct ExJsCallExpression(JsCallExpression);

/// `biome_js_syntax::JsModule`: the root of a module's syntax tree.
#[verifier::external_type_specification]
#[verifier::external_body]
pub struct ExJsModule(JsModule);

/// `biome_js_formatter::context::JsFormatContext`: the options and comments
/// that a formatted document was made with.
#[verifier::external_type_specification]
#[verifier::external_body]
pub struct ExJsFormatContext(JsFormatContext);

/// `biome_formatter::Formatted`: a document that is laid out but not printed.
#[verifier::external_type_specification]
#[verifier::external_body]
#[verifier::reject_recursive_types(Context)]
pub struct ExFormatted<Context>(Formatted<Context>);

/// `biome_formatter::FormatError`: why a tree could not be laid out.
#[verifier::external_type_specification]
#[verifier::external_body]
pub struct ExFormatError(FormatError);

/// `biome_formatter::PrintError`: why a document could not be printed.
#[verifier::external_type_specification]
#[verifier::external_body]
pub struct ExPrintError(PrintError);

/// Why a configuration module could not be printed.
#[derive(Clone, Copy, Debug, PartialEq, Eq, Structural)]
pub enum EmitError {
    /// A name is no identifier, or a string holds a character that cannot
    /// stand in a string literal as it is.
    InvalidText,
    /// The formatter could not lay the module out.
    Format,
    /// The formatter could not print what it had laid out.
    Print,
}

/// A character of an identifier: an ASCII letter, a digit, `_` or `$`.
pub open spec fn is_name_char(c: char) -> bool {
    ||| 'a' <= c <= 'z'
    ||| 'A' <= c <= 'Z'
    ||| '0' <= c <= '9'
    ||| c == '_'
    ||| c == '$'
}

/// An identifier: name characters, at least one, the first no digit.
pub open spec fn is_identifier(s: Seq<char>) -> bool {
    &&& s.len() > 0
    &&& !('0' <= s[0] <= '9')
    &&& forall|i: int| 0 <= i < s.len() ==> is_name_char(#[trigger] s[i])
}

/// A control character: one below the space, or from U+007F to U+009F.
pub open spec fn is_control_char(c: char) -> bool {
    c < ' ' || '\u{7f}' <= c <= '\u{9f}'
}

/// A character that stands for itself between double quotes: any character
/// but the double quote, the backslash and the control characters.
pub open spec fn is_plain_char(c: char) -> bool {
    &&& !is_control_char(c)
    &&& c != '"'
    &&& c != '\\'
}

/// A string of plain characters.
pub open spec fn is_plain_text(s: Seq<char>) -> bool {
    forall|i: int| 0 <= i < s.len() ==> is_plain_char(#[trigger] s[i])
}

/// Whether a string is an identifier.
pub fn check_identifier(s: &str) -> (ok: bool)
    ensures
        ok == is_identifier(s@),
{
    let n = s.unicode_len();
    if n == 0 {
        return false;
    }
    let first = s.get_char(0);
    if '0' <= first && first <= '9' {
        return false;
    }
    let mut i: usize = 0;
    while i < n
        invariant
            n == s@.len(),
            i <= n,
            forall|j: int| 0 <= j < i ==> is_name_char(#[trigger] s@[j]),
        decreases n - i,
    {
        let c = s.get_char(i);
        let ok = ('a' <= c && c <= 'z') || ('A' <= c && c <= 'Z') || ('0' <= c && c <= '9') || c
            == '_' || c == '$';
        if !ok {
            return false;
        }
        i += 1;
    }
    true
}

/// Whether a string holds plain characters only.
pub fn check_plain_text(s: &str) -> (ok: bool)
    ensures
        ok == is_plain_text(s@),
{
    let n = s.unicode_len();
    let mut i: usize = 0;
    while i < n
        invariant
            n == s@.len(),
            i <= n,
            forall|j: int| 0 <= j < i ==> is_plain_char(#[trigger] s@[j]),
        decreases n - i,
    {
        let c = s.get_char(i);
        let control = c < ' ' || ('\u{7f}' <= c && c <= '\u{9f}');
        if control || c == '"' || c == '\\' {
            return false;
        }
        i += 1;
    }
    true
}

/// The text that a statement holds: the texts of its tokens one after the
/// other, as `syntax().text()` gives it.
pub uninterp spec fn item_text(item: AnyJsModuleItem) -> Seq<char>;

/// The text that a member of an object literal holds.
pub uninterp spec fn member_text(member: AnyJsObjectMember) -> Seq<char>;

/// The text that an object literal holds.
pub uninterp spec fn object_text(object: JsObjectExpression) -> Seq<char>;

/// The text that a call holds.
pub uninterp spec fn call_text(call: JsCallExpression) -> Seq<char>;

/// The text that a module holds.
pub uninterp spec fn module_text(module: JsModule) -> Seq<char>;

/// A text between double quotes.
pub open spec fn quoted(text: Seq<char>) -> Seq<char> {
    seq!['"'] + text + seq!['"']
}

/// Texts one after the other.
pub open spec fn concat(parts: Seq<Seq<char>>) -> Seq<char>
    decreases parts.len(),
{
    if parts.len() == 0 {
        Seq::empty()
    } else {
        concat(parts.drop_last()) + parts.last()
    }
}

/// Texts one after the other with a comma between each two.
pub open spec fn listed(parts: Seq<Seq<char>>) -> Seq<char>
    decreases parts.len(),
{
    if parts.len() == 0 {
        Seq::empty()
    } else if parts.len() == 1 {
        parts[0]
    } else {
        listed(parts.drop_last()) + ","@ + parts.last()
    }
}

/// An object literal of the given members, as its tokens spell it.
pub open spec fn object_source(members: Seq<Seq<char>>) -> Seq<char> {
    "{"@ + listed(members) + "}"@
}

/// A member with an identifier as its name, as its tokens spell it.
pub open spec fn member_source(key: Seq<char>, value: Seq<char>) -> Seq<char> {
    key + ":"@ + value
}

/// An import, as its tokens spell it. The tokens stand side by side; only
/// `from` has a space on either side.
pub open spec fn import_source(import: ImportView) -> Seq<char> {
    match import {
        ImportView::Default { ident, module } => "import"@ + ident + " from "@ + quoted(module),
        ImportView::Named { name, module } => "import"@ + "{"@ + name + "}"@ + " from "@ + quoted(
            module,
        ) + ";"@,
    }
}

/// The entry that registers a plugin, as its tokens spell it.
pub open spec fn plugin_source(plugin: (Seq<char>, Seq<char>)) -> Seq<char> {
    member_source(quoted(plugin.0), plugin.1)
}

/// The entry that gives a rule its level, as its tokens spell it.
pub open spec fn rule_source(rule: (Seq<char>, Seq<char>)) -> Seq<char> {
    member_source(quoted(rule.0), quoted(rule.1))
}

/// A call with one argument, as its tokens spell it.
pub open spec fn call_source(callee: Seq<char>, argument: Seq<char>) -> Seq<char> {
    callee + "("@ + argument + ")"@
}

/// The default export of a module: `defineConfig` called with an object of
/// two members, `plugins` and `rules`, each an object of the module's entries.
pub open spec fn export_source(config: ConfigView) -> Seq<char> {
    "export"@ + "default"@ + call_source(
        "defineConfig"@,
        object_source(
            seq![
                member_source(
                    "plugins"@,
                    object_source(
                        config.plugins.map_values(
                            |plugin: (Seq<char>, Seq<char>)| plugin_source(plugin),
                        ),
                    ),
                ),
                member_source(
                    "rules"@,
                    object_source(
                        config.rules.map_values(|rule: (Seq<char>, Seq<char>)| rule_source(rule)),
                    ),
                ),
            ],
        ),
    )
}

/// A configuration module as the tokens of its syntax tree spell it: the
/// imports in their order, then the default export.
pub open spec fn module_source(config: ConfigView) -> Seq<char> {
    concat(
        config.imports.map_values(|import: ImportView| import_source(import)).push(
            export_source(config),
        ),
    )
}

/// The document that the formatter lays a module out as with its defaults
/// for a JavaScript module, or nothing where it cannot lay the module out.
pub uninterp spec fn document_of(module: JsModule) -> Option<Formatted<JsFormatContext>>;

/// The text that a document is printed as, or nothing where it cannot be
/// printed.
pub uninterp spec fn print_of(formatted: Formatted<JsFormatContext>) -> Option<Seq<char>>;

/// What laying out and printing a module gives: the text, or the step that
/// failed.
pub open spec fn rendered(module: JsModule) -> Result<Seq<char>, EmitError> {
    match document_of(module) {
        None => Err(EmitError::Format),
        Some(formatted) => match print_of(formatted) {
            None => Err(EmitError::Print),
            Some(text) => Ok(text),
        },
    }
}

/// The characters of a text that was printed, or why none was.
pub open spec fn text_view(text: Result<String, EmitError>) -> Result<Seq<char>, EmitError> {
    match text {
        Ok(text) => Ok(text@),
        Err(error) => Err(error),
    }
}

/// `outcome` is what laying out and printing gives for the syntax tree of
/// `config`: a tree that holds the tokens of the module in their order.
pub open spec fn renders(config: ConfigView, outcome: Result<Seq<char>, EmitError>) -> bool {
    exists|module: JsModule|
        module_text(module) == module_source(config) && outcome == #[trigger] rendered(module)
}

/// The separators that a list of `count` items takes: one between each two.
pub open spec fn separators_for(count: nat) -> nat {
    if count == 0 {
        0
    } else {
        (count - 1) as nat
    }
}

/// `import <ident> from "<module>"`, built by `make::js_import` around a
/// default clause. The factory makes tokens from the two texts as they are:
/// `ident` is to be an identifier, and `module` plain, so that it can stand
/// between the quotes that `make::js_string_literal` puts round it. The
/// statement holds four tokens: `import` as `make::token` spells it, the
/// identifier, `from` with the space that `make::token_decorated_with_space`
/// puts on either side, and the quoted module.
#[verifier::external_body]
fn default_import(ident: &str, module: &str) -> (item: AnyJsModuleItem)
    requires
        is_identifier(ident@),
        is_plain_text(module@),
    ensures
        item_text(item) == "import"@ + ident@ + " from "@ + quoted(module@),
{
    let clause = make::js_import_default_clause(
        make::js_default_import_specifier(make::js_identifier_binding(make::ident(ident)).into()),
        make::token_decorated_with_space(JsSyntaxKind::FROM_KW),
        make::js_module_source(make::js_string_literal(module)),
    );
    make::js_import(make::token(JsSyntaxKind::IMPORT_KW), clause.build().into()).build().into()
}

/// `import { <name> } from "<module>";`, built by `make::js_import` around a
/// named clause with one shorthand specifier. `name` is to be an identifier
/// and `module` plain. The statement holds seven tokens: `import`, the two
/// braces round the name, `from` with a space on either side, the quoted
/// module and the semicolon.
#[verifier::external_body]
fn named_import(name: &str, module: &str) -> (item: AnyJsModuleItem)
    requires
        is_identifier(name@),
        is_plain_text(module@),
    ensures
        item_text(item) == "import"@ + "{"@ + name@ + "}"@ + " from "@ + quoted(module@) + ";"@,
{
    let binding = make::js_identifier_binding(make::ident(name)).into();
    let specifier = make::js_shorthand_named_import_specifier(binding).build().into();
    let specifiers = make::js_named_import_specifiers(
        make::token(JsSyntaxKind::L_CURLY),
        make::js_named_import_specifier_list([specifier], []),
        make::token(JsSyntaxKind::R_CURLY),
    );
    let source = make::js_module_source(make::js_string_literal(module));
    let from = make::token_decorated_with_space(JsSyntaxKind::FROM_KW);
    let clause = make::js_import_named_clause(specifiers, from, source).build();
    let import = make::js_import(make::token(JsSyntaxKind::IMPORT_KW), clause.into());
    import.with_semicolon_token(make::token(JsSyntaxKind::SEMICOLON)).build().into()
}

/// `"<key>": <ident>`, built by `make::js_property_object_member`: a string
/// as the member's name and a reference to a binding as its value. `key` is
/// to be plain and `ident` an identifier. The member holds three tokens: the
/// quoted key, the colon and the identifier.
#[verifier::external_body]
fn reference_member(key: &str, ident: &str) -> (member: AnyJsObjectMember)
    requires
        is_plain_text(key@),
        is_identifier(ident@),
    ensures
        member_text(member) == quoted(key@) + ":"@ + ident@,
{
    make::js_property_object_member(
        make::js_literal_member_name(make::js_string_literal(key)).into(),
        make::token(JsSyntaxKind::COLON),
        make::js_identifier_expression(make::js_reference_identifier(make::ident(ident))).into(),
    ).into()
}

/// `"<key>": "<value>"`, built by `make::js_property_object_member`: a string
/// as the member's name and a string as its value. Both are to be plain. The
/// member holds three tokens: the quoted key, the colon and the quoted value.
#[verifier::external_body]
fn string_member(key: &str, value: &str) -> (member: AnyJsObjectMember)
    requires
        is_plain_text(key@),
        is_plain_text(value@),
    ensures
        member_text(member) == quoted(key@) + ":"@ + quoted(value@),
{
    make::js_property_object_member(
        make::js_literal_member_name(make::js_string_literal(key)).into(),
        make::token(JsSyntaxKind::COLON),
        AnyJsExpression::AnyJsLiteralExpression(
            make::js_string_literal_expression(make::js_string_literal(value)).into(),
        ),
    ).into()
}

/// `<key>: {..}`, built by `make::js_property_object_member`: an identifier
/// as the member's name and an object literal as its value. The member holds
/// the key, the colon and what the object holds.
#[verifier::external_body]
fn object_member(key: &str, value: JsObjectExpression) -> (member: AnyJsObjectMember)
    requires
        is_identifier(key@),
    ensures
        member_text(member) == key@ + ":"@ + object_text(value),
{
    make::js_property_object_member(
        make::js_literal_member_name(make::ident(key)).into(),
        make::token(JsSyntaxKind::COLON),
        value.into(),
    ).into()
}

/// `{ <members> }`, built by `make::js_object_expression` over
/// `make::js_object_member_list`, which takes the members and the commas
/// between them in turn: `separators` is to be the number of those commas.
/// The object holds an opening brace, what its members hold with a comma
/// between each two, and a closing brace.
#[verifier::external_body]
fn object_expression(
    members: Vec<AnyJsObjectMember>,
    separators: usize,
) -> (object: JsObjectExpression)
    requires
        separators == separators_for(members@.len()),
    ensures
        object_text(object) == "{"@ + listed(
            members@.map_values(|member: AnyJsObjectMember| member_text(member)),
        ) + "}"@,
{
    let commas = vec![make::token(JsSyntaxKind::COMMA); separators];
    make::js_object_expression(
        make::token(JsSyntaxKind::L_CURLY),
        make::js_object_member_list(members, commas),
        make::token(JsSyntaxKind::R_CURLY),
    )
}

/// `<callee>(<argument>)`, built by `make::js_call_expression` with one
/// argument. `callee` is to be an identifier. The call holds the callee and,
/// between two parentheses, what the argument holds.
#[verifier::external_body]
fn call_expression(callee: &str, argument: JsObjectExpression) -> (call: JsCallExpression)
    requires
        is_identifier(callee@),
    ensures
        call_text(call) == callee@ + "("@ + object_text(argument) + ")"@,
{
    make::js_call_expression(
        make::js_identifier_expression(make::js_reference_identifier(make::ident(callee))).into(),
        make::js_call_arguments(
            make::token(JsSyntaxKind::L_PAREN),
            make::js_call_argument_list([AnyJsCallArgument::AnyJsExpression(argument.into())], []),
            make::token(JsSyntaxKind::R_PAREN),
        ),
    ).build()
}

/// `export default <call>`, built by `make::js_export` around a default
/// expression clause. The statement holds the two keywords and what the call
/// holds.
#[verifier::external_body]
fn default_export(call: JsCallExpression) -> (item: AnyJsModuleItem)
    ensures
        item_text(item) == "export"@ + "default"@ + call_text(call),
{
    let clause = make::js_export_default_expression_clause(
        make::token(JsSyntaxKind::DEFAULT_KW),
        call.into(),
    );
    make::js_export(
        make::js_decorator_list([]),
        make::token(JsSyntaxKind::EXPORT_KW),
        clause.build().into(),
    ).into()
}

/// A module of the given statements and no directives, built by
/// `make::js_module`. The module holds what its statements hold, one after
/// the other; its last token, which marks the end, is empty.
#[verifier::external_body]
fn module_of(items: Vec<AnyJsModuleItem>) -> (module: JsModule)
    ensures
        module_text(module) == concat(
            items@.map_values(|item: AnyJsModuleItem| item_text(item)),
        ),
{
    make::js_module(make::js_directive_list([]), make::js_module_item_list(items), make::eof())
        .build()
}

/// `biome_js_formatter::format_node` on a module, with the formatter's own
/// defaults for a JavaScript module. The formatter reads the tree and those
/// options and nothing else, so the outcome is settled by the module: the
/// document, or a failure, that `document_of` stands for. Which of the two it
/// is, and what the document holds, is not said here.
#[verifier::external_body]
fn format_module(module: &JsModule) -> (outcome: Result<Formatted<JsFormatContext>, FormatError>)
    ensures
        outcome matches Ok(formatted) ==> document_of(*module) == Some(formatted),
        outcome is Err ==> document_of(*module) is None,
{
    biome_js_formatter::format_node(
        JsFormatOptions::new(JsFileSource::js_module()),
        module.syntax(),
    )
}

/// `SyntaxNode::text` on a module's root: the text that the module holds.
#[verifier::external_body]
fn text_of(module: &JsModule) -> (text: String)
    ensures
        text@ == module_text(*module),
{
    module.syntax().text().to_string()
}

/// `Formatted::print`, and the text of what it printed. The printer reads the
/// document and the options it was made with and nothing else, so the outcome
/// is settled by the document: the text, or a failure, that `print_of` stands
/// for. Which of the two it is, and what the text holds, is not said here.
#[verifier::external_body]
fn print_formatted(formatted: &Formatted<JsFormatContext>) -> (outcome: Result<
    String,
    PrintError,
>)
    ensures
        outcome matches Ok(code) ==> print_of(*formatted) == Some(code@),
        outcome is Err ==> print_of(*formatted) is None,
{
    match formatted.print() {
        Ok(printed) => Ok(printed.into_code()),
        Err(error) => Err(error),
    }
}

/// Whether an import can be printed: its binding is an identifier and its
/// module plain.
pub open spec fn import_printable(import: ImportView) -> bool {
    match import {
        ImportView::Default { ident, module } => is_identifier(ident) && is_plain_text(module),
        ImportView::Named { name, module } => is_identifier(name) && is_plain_text(module),
    }
}

/// Whether a configuration module can be printed: every binding is an
/// identifier and every other text plain.
pub open spec fn printable(config: ConfigView) -> bool {
    &&& forall|i: int|
        0 <= i < config.imports.len() ==> import_printable(#[trigger] config.imports[i])
    &&& forall|i: int|
        0 <= i < config.plugins.len() ==> is_plain_text((#[trigger] config.plugins[i]).0)
            && is_identifier(config.plugins[i].1)
    &&& forall|i: int|
        0 <= i < config.rules.len() ==> is_plain_text((#[trigger] config.rules[i]).0)
            && is_plain_text(config.rules[i].1)
}

/// Whether a configuration module can be printed.
pub fn check_printable(config: &EslintConfig) -> (ok: bool)
    ensures
        ok == printable(config@),
{
    let mut i: usize = 0;
    while i < config.imports.len()
        invariant
            i <= config.imports@.len(),
            forall|j: int| 0 <= j < i ==> import_printable(#[trigger] config@.imports[j]),
        decreases config.imports@.len() - i,
    {
        let ok = match &config.imports[i] {
            Import::Default(import) => check_identifier(import.ident.as_str()) && check_plain_text(
                import.module.as_str(),
            ),
            Import::Named(import) => check_identifier(import.name.as_str()) && check_plain_text(
                import.module.as_str(),
            ),
        };
        assert(ok == import_printable(config@.imports[i as int]));
        if !ok {
            return false;
        }
        i += 1;
    }
    let mut i: usize = 0;
    while i < config.plugins.len()
        invariant
            i <= config.plugins@.len(),
            forall|j: int|
                0 <= j < i ==> is_plain_text((#[trigger] config@.plugins[j]).0) && is_identifier(
                    config@.plugins[j].1,
                ),
        decreases config.plugins@.len() - i,
    {
        let ok = check_plain_text(config.plugins[i].namespace.as_str()) && check_identifier(
            config.plugins[i].ident.as_str(),
        );
        assert(config@.plugins[i as int] == config.plugins@[i as int]@);
        if !ok {
            return false;
        }
        i += 1;
    }
    let mut i: usize = 0;
    while i < config.rules.len()
        invariant
            i <= config.rules@.len(),
            forall|j: int|
                0 <= j < i ==> is_plain_text((#[trigger] config@.rules[j]).0) && is_plain_text(
                    config@.rules[j].1,
                ),
        decreases config.rules@.len() - i,
    {
        let ok = check_plain_text(config.rules[i].name.as_str()) && check_plain_text(
            config.rules[i].level.as_str(),
        );
        assert(config@.rules[i as int] == config.rules@[i as int]@);
        if !ok {
            return false;
        }
        i += 1;
    }
    true
}

/// How many separators a list of `count` items takes.
fn separators(count: usize) -> (n: usize)
    ensures
        n == separators_for(count as nat),
{
    if count == 0 {
        0
    } else {
        count - 1
    }
}

/// What laying out gave: the document, or that laying out failed.
pub fn laid_out(outcome: Result<Formatted<JsFormatContext>, FormatError>) -> (document: Result<
    Formatted<JsFormatContext>,
    EmitError,
>)
    ensures
        outcome matches Ok(formatted) ==> document == Ok::<Formatted<JsFormatContext>, EmitError>(
            formatted,
        ),
        outcome is Err ==> document == Err::<Formatted<JsFormatContext>, EmitError>(
            EmitError::Format,
        ),
{
    match outcome {
        Ok(formatted) => Ok(formatted),
        Err(_) => Err(EmitError::Format),
    }
}

/// What printing gave: the text, or that printing failed.
pub fn printed_text(outcome: Result<String, PrintError>) -> (text: Result<String, EmitError>)
    ensures
        outcome matches Ok(code) ==> text == Ok::<String, EmitError>(code),
        outcome is Err ==> text == Err::<String, EmitError>(EmitError::Print),
{
    match outcome {
        Ok(code) => Ok(code),
        Err(_) => Err(EmitError::Print),
    }
}

/// Builds the syntax tree of a configuration module that can be printed:
/// the imports in their order, then the default export of
/// `defineConfig({ plugins: {..}, rules: {..} })`. Both objects are there
/// even where they are empty.
fn module_tree(config: &EslintConfig) -> (module: JsModule)
    requires
        printable(config@),
    ensures
        module_text(module) == module_source(config@),
{
    let ghost view = config@;
    let mut items: Vec<AnyJsModuleItem> = Vec::new();
    let mut i: usize = 0;
    while i < config.imports.len()
        invariant
            i <= config.imports@.len(),
            view == config@,
            printable(view),
            items@.len() == i,
            forall|j: int|
                0 <= j < i ==> item_text(#[trigger] items@[j]) == import_source(view.imports[j]),
        decreases config.imports@.len() - i,
    {
        assert(import_printable(view.imports[i as int]));
        let item = match &config.imports[i] {
            Import::Default(import) => default_import(
                import.ident.as_str(),
                import.module.as_str(),
            ),
            Import::Named(import) => named_import(import.name.as_str(), import.module.as_str()),
        };
        items.push(item);
        i += 1;
    }
    let mut plugins: Vec<AnyJsObjectMember> = Vec::new();
    let mut i: usize = 0;
    while i < config.plugins.len()
        invariant
            i <= config.plugins@.len(),
            view == config@,
            printable(view),
            plugins@.len() == i,
            forall|j: int|
                0 <= j < i ==> member_text(#[trigger] plugins@[j]) == plugin_source(
                    view.plugins[j],
                ),
        decreases config.plugins@.len() - i,
    {
        assert(view.plugins[i as int] == config.plugins@[i as int]@);
        let plugin = &config.plugins[i];
        plugins.push(reference_member(plugin.namespace.as_str(), plugin.ident.as_str()));
        i += 1;
    }
    let mut rules: Vec<AnyJsObjectMember> = Vec::new();
    let mut i: usize = 0;
    while i < config.rules.len()
        invariant
            i <= config.rules@.len(),
            view == config@,
            printable(view),
            rules@.len() == i,
            forall|j: int|
                0 <= j < i ==> member_text(#[trigger] rules@[j]) == rule_source(view.rules[j]),
        decreases config.rules@.len() - i,
    {
        assert(view.rules[i as int] == config.rules@[i as int]@);
        rules.push(string_member(config.rules[i].name.as_str(), config.rules[i].level.as_str()));
        i += 1;
    }
    proof {
        assert(plugins@.map_values(|member: AnyJsObjectMember| member_text(member))
            =~= view.plugins.map_values(|plugin: (Seq<char>, Seq<char>)| plugin_source(plugin)));
        assert(rules@.map_values(|member: AnyJsObjectMember| member_text(member))
            =~= view.rules.map_values(|rule: (Seq<char>, Seq<char>)| rule_source(rule)));
        lemma_fixed_names();
    }
    let plugin_commas = separators(plugins.len());
    let rule_commas = separators(rules.len());
    let plugins = object_expression(plugins, plugin_commas);
    let rules = object_expression(rules, rule_commas);
    let mut members: Vec<AnyJsObjectMember> = Vec::new();
    members.push(object_member("plugins", plugins));
    members.push(object_member("rules", rules));
    proof {
        assert(members@.map_values(|member: AnyJsObjectMember| member_text(member)) =~= seq![
            member_source("plugins"@, object_text(plugins)),
            member_source("rules"@, object_text(rules)),
        ]);
    }
    let call = call_expression("defineConfig", object_expression(members, 1));
    let ghost imports = items@.map_values(|item: AnyJsModuleItem| item_text(item));
    items.push(default_export(call));
    proof {
        assert(imports =~= view.imports.map_values(|import: ImportView| import_source(import)));
        assert(items@.map_values(|item: AnyJsModuleItem| item_text(item)) =~= imports.push(
            export_source(view),
        ));
    }
    module_of(items)
}

/// The text of a configuration module as the tokens of its syntax tree spell
/// it, before the formatter lays it out: the tokens stand side by side, and
/// only `from` has a space on either side. A module that cannot be printed is
/// refused.
pub fn unformatted(config: &EslintConfig) -> (text: Result<String, EmitError>)
    ensures
        !printable(config@) ==> text == Err::<String, EmitError>(EmitError::InvalidText),
        printable(config@) ==> (text matches Ok(source) && source@ == module_source(config@)),
{
    if !check_printable(config) {
        return Err(EmitError::InvalidText);
    }
    let module = module_tree(config);
    Ok(text_of(&module))
}

/// The names that every configuration module holds are identifiers.
proof fn lemma_fixed_names()
    ensures
        is_identifier("plugins"@),
        is_identifier("rules"@),
        is_identifier("defineConfig"@),
{
    reveal_strlit("plugins");
    reveal_strlit("rules");
    reveal_strlit("defineConfig");
}

/// Prints a configuration module as JavaScript, laid out by the formatter
/// with its defaults. A module that holds a binding that is no identifier,
/// or a text that is not plain, is refused. Any other module is built as a
/// syntax tree that holds its tokens in their order, and the result is what
/// the formatter makes of that tree: the text, or the step that failed.
pub fn render(config: &EslintConfig) -> (text: Result<String, EmitError>)
    ensures
        text == Err::<String, EmitError>(EmitError::InvalidText) <==> !printable(config@),
        printable(config@) ==> renders(config@, text_view(text)),
{
    if !check_printable(config) {
        return Err(EmitError::InvalidText);
    }
    let module = module_tree(config);
    let text = match laid_out(format_module(&module)) {
        Ok(formatted) => printed_text(print_formatted(&formatted)),
        Err(error) => Err(error),
    };
    assert(text_view(text) == rendered(module));
    text
}

} // verus!
