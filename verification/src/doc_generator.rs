//! Documentation generated from source text.
//!
//! Reference documentation is generated directly from Rust sources, so that it
//! can be regenerated and compared with what is committed. Parsing is lexical
//! rather than a full syntax tree: only public item headers, doc comments and
//! test bodies are needed.
//!
//! `parse_module` reads the items of a module, `extract_examples` the bodies of
//! its tests, `attach_examples` brings the two together and `render_markdown`
//! writes the document.

use crate::scan;
use crate::scan::{
    find_stop, head_of, lines_of, matching_paren, name_at_start, split_once, split_top_level,
    squeeze, strip_prefix, trimmed_end, trimmed_start, Stop,
};
use crate::text;
use crate::text::{
    chars_of, contains, join_list, starts_with, str_eq, string_of, trimmed,
};
use vstd::prelude::*;
use vstd::string::*;

verus! {

/// The kind of public item a documented entry describes.
#[derive(Debug, Clone, Copy, PartialEq, Eq, Structural)]
pub enum ItemKind {
    Function,
    Struct,
    Enum,
    Trait,
    TypeAlias,
}

impl ItemKind {
    /// Heading label used when rendering markdown.
    pub open spec fn spec_label(self) -> Seq<char> {
        match self {
            ItemKind::Function => "fn"@,
            ItemKind::Struct => "struct"@,
            ItemKind::Enum => "enum"@,
            ItemKind::Trait => "trait"@,
            ItemKind::TypeAlias => "type"@,
        }
    }

    /// Heading label used when rendering markdown.
    pub fn label(self) -> (r: &'static str)
        ensures
            r@ == self.spec_label(),
    {
        match self {
            ItemKind::Function => "fn",
            ItemKind::Struct => "struct",
            ItemKind::Enum => "enum",
            ItemKind::Trait => "trait",
            ItemKind::TypeAlias => "type",
        }
    }

    /// The word in front of an item's name, with the space behind it.
    pub open spec fn spec_keyword(self) -> Seq<char> {
        match self {
            ItemKind::Function => "fn "@,
            ItemKind::Struct => "struct "@,
            ItemKind::Enum => "enum "@,
            ItemKind::Trait => "trait "@,
            ItemKind::TypeAlias => "type "@,
        }
    }

    /// The word in front of an item's name, with the space behind it.
    fn keyword(self) -> (r: &'static str)
        ensures
            r@ == self.spec_keyword(),
    {
        match self {
            ItemKind::Function => "fn ",
            ItemKind::Struct => "struct ",
            ItemKind::Enum => "enum ",
            ItemKind::Trait => "trait ",
            ItemKind::TypeAlias => "type ",
        }
    }
}

/// One parameter of a documented function, with its declared type.
#[derive(Debug, PartialEq, Eq)]
pub struct ParamDoc {
    pub name: String,
    pub ty: String,
}

/// What is said of a parameter.
pub struct ParamModel {
    pub name: Seq<char>,
    pub ty: Seq<char>,
}

impl View for ParamDoc {
    type V = ParamModel;

    open spec fn view(&self) -> ParamModel {
        ParamModel { name: self.name@, ty: self.ty@ }
    }
}

/// A usage example lifted from a test function body.
#[derive(Debug, PartialEq, Eq)]
pub struct Example {
    /// Name of the test the example came from, kept so readers can find it.
    pub name: String,
    pub code: String,
}

impl Clone for Example {
    fn clone(&self) -> (r: Self)
        ensures
            r == *self,
    {
        Example { name: self.name.clone(), code: self.code.clone() }
    }
}

/// What an example says.
pub struct ExampleModel {
    pub name: Seq<char>,
    pub code: Seq<char>,
}

impl View for Example {
    type V = ExampleModel;

    open spec fn view(&self) -> ExampleModel {
        ExampleModel { name: self.name@, code: self.code@ }
    }
}

/// A single documented public item.
#[derive(Debug)]
pub struct DocItem {
    pub name: String,
    pub kind: ItemKind,
    /// The item header, normalized to a single line.
    pub signature: String,
    /// Doc comment lines, with the leading marker stripped.
    pub doc: Vec<String>,
    pub params: Vec<ParamDoc>,
    pub returns: Option<String>,
    pub examples: Vec<Example>,
}

/// What is said of an item.
#[verifier::ext_equal]
pub struct ItemModel {
    pub name: Seq<char>,
    pub kind: ItemKind,
    pub signature: Seq<char>,
    pub doc: Seq<Seq<char>>,
    pub params: Seq<ParamModel>,
    pub returns: Option<Seq<char>>,
    pub examples: Seq<ExampleModel>,
}

/// What is said of some parameters.
pub open spec fn param_models(v: Seq<ParamDoc>) -> Seq<ParamModel> {
    Seq::new(v.len(), |i: int| v[i]@)
}

/// What some examples say.
pub open spec fn example_models(v: Seq<Example>) -> Seq<ExampleModel> {
    Seq::new(v.len(), |i: int| v[i]@)
}

/// What is said of some items.
pub open spec fn item_models(v: Seq<DocItem>) -> Seq<ItemModel> {
    Seq::new(v.len(), |i: int| v[i]@)
}

impl View for DocItem {
    type V = ItemModel;

    open spec fn view(&self) -> ItemModel {
        ItemModel {
            name: self.name@,
            kind: self.kind,
            signature: self.signature@,
            doc: text::texts(self.doc@),
            params: param_models(self.params@),
            returns: scan::view_of(self.returns),
            examples: example_models(self.examples@),
        }
    }
}

/// Generated documentation for one module.
#[derive(Debug)]
pub struct ModuleDoc {
    pub module: String,
    /// Module-level doc comment lines.
    pub summary: Vec<String>,
    pub items: Vec<DocItem>,
}

/// What is said of a module.
#[verifier::ext_equal]
pub struct ModuleModel {
    pub module: Seq<char>,
    pub summary: Seq<Seq<char>>,
    pub items: Seq<ItemModel>,
}

impl View for ModuleDoc {
    type V = ModuleModel;

    open spec fn view(&self) -> ModuleModel {
        ModuleModel {
            module: self.module@,
            summary: text::texts(self.summary@),
            items: item_models(self.items@),
        }
    }
}

/// The module-level doc comment from line `i` on: the marked lines up to the
/// first line that is neither marked nor blank.
pub open spec fn summary_from(lines: Seq<Seq<char>>, i: int) -> Seq<Seq<char>>
    decreases lines.len() - i,
{
    if i < 0 || i >= lines.len() {
        Seq::empty()
    } else {
        let t = text::trim(lines[i]);
        match scan::after_prefix(t, "//!"@) {
            Some(rest) => seq![text::trim(rest)] + summary_from(lines, i + 1),
            None => if t.len() == 0 {
                summary_from(lines, i + 1)
            } else {
                Seq::empty()
            },
        }
    }
}

/// The module-level doc comment.
fn module_summary(lines: &Vec<String>) -> (r: Vec<String>)
    ensures
        text::texts(r@) == summary_from(text::texts(lines@), 0),
{
    let ghost all = text::texts(lines@);
    let mut out: Vec<String> = Vec::new();
    let mut i: usize = 0;
    assert(text::texts(out@) + summary_from(all, 0) =~= summary_from(all, 0));
    while i < lines.len()
        invariant
            i <= lines@.len(),
            all == text::texts(lines@),
            text::texts(out@) + summary_from(all, i as int) == summary_from(all, 0),
        decreases lines@.len() - i,
    {
        let ghost before = text::texts(out@);
        assert(all[i as int] == lines@[i as int]@);
        let t = trimmed(lines[i].as_str());
        match strip_prefix(t.as_str(), "//!") {
            Some(rest) => {
                let line = trimmed(rest.as_str());
                out.push(line);
                proof {
                    assert(text::texts(out@) =~= before.push(line@));
                    assert(text::texts(out@) + summary_from(all, i + 1) =~= before + (seq![line@]
                        + summary_from(all, i + 1)));
                }
            },
            None => {
                if t.as_str().unicode_len() != 0 {
                    assert(text::texts(out@) + Seq::<Seq<char>>::empty() =~= text::texts(out@));
                    return out;
                }
            },
        }
        i += 1;
    }
    assert(text::texts(out@) + Seq::<Seq<char>>::empty() =~= text::texts(out@));
    out
}

/// Whether a text begins with a prefix behind which there is a name.
pub open spec fn declares(s: Seq<char>, prefix: Seq<char>) -> bool {
    match scan::after_prefix(s, prefix) {
        Some(rest) => text::trim(rest).len() > 0,
        None => false,
    }
}

/// Whether a text begins with a prefix behind which there is a name.
fn is_declaration(s: &str, prefix: &str) -> (r: bool)
    ensures
        r == declares(s@, prefix@),
{
    match strip_prefix(s, prefix) {
        Some(rest) => {
            let name = trimmed(rest.as_str());
            name.as_str().unicode_len() > 0
        },
        None => false,
    }
}

/// The kind of the public item that a line begins, if it begins one. Items of
/// restricted visibility are treated as private.
pub open spec fn kind_of(line: Seq<char>) -> Option<ItemKind> {
    match scan::after_prefix(line, "pub "@) {
        Some(rest) => {
            let t = text::trim_start(rest);
            if declares(t, "async fn "@) || declares(t, "fn "@) {
                Some(ItemKind::Function)
            } else if text::has_prefix(t, "struct "@) {
                Some(ItemKind::Struct)
            } else if text::has_prefix(t, "enum "@) {
                Some(ItemKind::Enum)
            } else if text::has_prefix(t, "trait "@) {
                Some(ItemKind::Trait)
            } else if text::has_prefix(t, "type "@) {
                Some(ItemKind::TypeAlias)
            } else {
                None
            }
        },
        None => None,
    }
}

/// The kind of the public item that a line begins, if it begins one.
fn item_kind_of(line: &str) -> (r: Option<ItemKind>)
    ensures
        r == kind_of(line@),
{
    match strip_prefix(line, "pub ") {
        Some(rest) => {
            let t = trimmed_start(rest.as_str());
            if is_declaration(t.as_str(), "async fn ") || is_declaration(t.as_str(), "fn ") {
                Some(ItemKind::Function)
            } else if starts_with(t.as_str(), "struct ") {
                Some(ItemKind::Struct)
            } else if starts_with(t.as_str(), "enum ") {
                Some(ItemKind::Enum)
            } else if starts_with(t.as_str(), "trait ") {
                Some(ItemKind::Trait)
            } else if starts_with(t.as_str(), "type ") {
                Some(ItemKind::TypeAlias)
            } else {
                None
            }
        },
        None => None,
    }
}

/// A header with one more line.
pub open spec fn lengthened(header: Seq<char>, line: Seq<char>) -> Seq<char> {
    if header.len() == 0 {
        text::trim(line)
    } else {
        header + " "@ + text::trim(line)
    }
}

/// The header that goes on with line `index`, and the line after it: it stops at
/// the opening brace of a body or the semicolon of a declaration, whichever
/// comes first outside parentheses.
pub open spec fn header_from(lines: Seq<Seq<char>>, index: int, header: Seq<char>) -> (
    Seq<char>,
    int,
)
    decreases lines.len() - index,
{
    if index < 0 || index >= lines.len() {
        (text::trim(header), index)
    } else {
        let longer = lengthened(header, lines[index]);
        let end = scan::first_stop(longer, Stop::Body, 0);
        if end < longer.len() {
            (text::trim(longer.take(end)), index + 1)
        } else {
            header_from(lines, index + 1, longer)
        }
    }
}

/// A header takes up a line at least.
pub proof fn lemma_header(lines: Seq<Seq<char>>, index: int, header: Seq<char>)
    requires
        0 <= index <= lines.len(),
    ensures
        index <= header_from(lines, index, header).1 <= lines.len(),
        index < lines.len() ==> index < header_from(lines, index, header).1,
    decreases lines.len() - index,
{
    if index < lines.len() {
        lemma_header(lines, index + 1, lengthened(header, lines[index]));
    }
}

/// Collect an item header across however many lines it spans, returning the
/// header text and the index of the line after it.
fn collect_header(lines: &Vec<String>, start: usize) -> (r: (String, usize))
    requires
        start <= lines@.len(),
    ensures
        (r.0@, r.1 as int) == header_from(text::texts(lines@), start as int, Seq::empty()),
        start <= r.1 <= lines@.len(),
        start < lines@.len() ==> start < r.1,
{
    let ghost all = text::texts(lines@);
    let ghost nothing: Seq<char> = Seq::empty();
    proof {
        lemma_header(all, start as int, nothing);
    }
    let mut header = String::new();
    let mut index: usize = start;
    assert(header@ =~= nothing);
    while index < lines.len()
        invariant
            start <= index <= lines@.len(),
            all == text::texts(lines@),
            nothing == Seq::<char>::empty(),
            header_from(all, start as int, nothing) == header_from(all, index as int, header@),
        decreases lines@.len() - index,
    {
        assert(all[index as int] == lines@[index as int]@);
        let ghost shorter = header@;
        let line = trimmed(lines[index].as_str());
        if header.as_str().unicode_len() != 0 {
            header.append(" ");
        }
        header.append(line.as_str());
        index += 1;
        assert(header@ =~= lengthened(shorter, all[index - 1]));
        let chars = chars_of(header.as_str());
        let end: usize = find_stop(&chars, Stop::Body);
        if end < chars.len() {
            let cut = string_of(&chars, 0, end);
            assert(cut@ =~= header@.take(end as int));
            return (trimmed(cut.as_str()), index);
        }
    }
    (trimmed(header.as_str()), index)
}

/// The name of an item, from its header.
pub open spec fn name_of(header: Seq<char>, kind: ItemKind) -> Option<Seq<char>> {
    match scan::cut(header, kind.spec_keyword()) {
        Some(p) => if scan::leading_name(p.1).len() == 0 {
            None
        } else {
            Some(scan::leading_name(p.1))
        },
        None => None,
    }
}

/// The name of an item, from its header.
fn item_name(header: &str, kind: ItemKind) -> (r: Option<String>)
    ensures
        scan::view_of(r) == name_of(header@, kind),
{
    match split_once(header, kind.keyword()) {
        Some((_head, after)) => {
            let name = name_at_start(after.as_str());
            if name.as_str().unicode_len() == 0 {
                None
            } else {
                Some(name)
            }
        },
        None => None,
    }
}

/// Whether a binding is a receiver.
pub open spec fn is_receiver(name: Seq<char>) -> bool {
    name == "self"@ || name == "mut self"@
}

/// Whether a binding is a destructured pattern rather than a plain name.
pub open spec fn is_pattern(name: Seq<char>) -> bool {
    text::occurs(name, "("@) || text::occurs(name, "["@) || text::occurs(name, "{"@)
        || text::occurs(name, "&"@)
}

/// The parameter that a part of a parameter list declares: `name: Type`, split
/// at the colon that separates the binding from its type. Receivers and
/// destructured patterns are skipped.
pub open spec fn param_of(part: Seq<char>) -> Option<ParamModel> {
    let t = text::trim(part);
    let at = scan::first_stop(t, Stop::Binding, 0);
    if at >= t.len() {
        None
    } else {
        let name = scan::squeezed(t.take(at));
        if is_receiver(name) || is_pattern(name) {
            None
        } else {
            Some(ParamModel { name, ty: scan::squeezed(t.skip(at + 1)) })
        }
    }
}

/// What is said of an optional parameter.
pub open spec fn param_view(p: Option<ParamDoc>) -> Option<ParamModel> {
    match p {
        Some(x) => Some(x@),
        None => None,
    }
}

/// The parameter that a part of a parameter list declares.
fn parse_param(part: &str) -> (r: Option<ParamDoc>)
    ensures
        param_view(r) == param_of(part@),
{
    let t = trimmed(part);
    let chars = chars_of(t.as_str());
    let at: usize = find_stop(&chars, Stop::Binding);
    if at == chars.len() {
        return None;
    }
    let binding = string_of(&chars, 0, at);
    let ty = string_of(&chars, at + 1, chars.len());
    assert(binding@ =~= t@.take(at as int));
    assert(ty@ =~= t@.skip(at + 1));
    let name = squeeze(binding.as_str());
    if str_eq(name.as_str(), "self") || str_eq(name.as_str(), "mut self") {
        return None;
    }
    if contains(name.as_str(), "(") || contains(name.as_str(), "[") || contains(
        name.as_str(),
        "{",
    ) || contains(name.as_str(), "&") {
        return None;
    }
    Some(ParamDoc { name, ty: squeeze(ty.as_str()) })
}

/// The parameters that the parts of a parameter list declare.
pub open spec fn params_in(parts: Seq<Seq<char>>) -> Seq<ParamModel>
    decreases parts.len(),
{
    if parts.len() == 0 {
        Seq::empty()
    } else {
        let before = params_in(parts.drop_last());
        match param_of(parts.last()) {
            Some(p) => before.push(p),
            None => before,
        }
    }
}

/// The parameters of a function, from its header: those between the first
/// parenthesis behind its generics and the one that closes it.
pub open spec fn params_of(header: Seq<char>) -> Seq<ParamModel> {
    let open = scan::first_stop(header, Stop::Params, 0);
    if open >= header.len() {
        Seq::empty()
    } else {
        params_in(
            scan::top_level_parts(
                header.subrange(open + 1, scan::closing_from(header, open + 1, 1)),
            ),
        )
    }
}

/// Extract the parameter list, skipping receivers (`self`) and bindings that
/// are destructured patterns rather than plain names.
fn parse_params(header: &str) -> (r: Vec<ParamDoc>)
    ensures
        param_models(r@) == params_of(header@),
{
    let chars = chars_of(header);
    let open: usize = find_stop(&chars, Stop::Params);
    let mut out: Vec<ParamDoc> = Vec::new();
    if open == chars.len() {
        assert(param_models(out@) =~= Seq::<ParamModel>::empty());
        return out;
    }
    proof {
        scan::lemma_first_stop(chars@, Stop::Params, 0);
    }
    let close: usize = matching_paren(&chars, open);
    let inside = string_of(&chars, open + 1, close);
    let parts = split_top_level(inside.as_str());
    let ghost all = text::texts(parts@);
    let mut i: usize = 0;
    assert(all.take(0) =~= Seq::<Seq<char>>::empty());
    assert(param_models(out@) =~= Seq::<ParamModel>::empty());
    while i < parts.len()
        invariant
            i <= parts@.len(),
            all == text::texts(parts@),
            param_models(out@) == params_in(all.take(i as int)),
        decreases parts@.len() - i,
    {
        let ghost before = param_models(out@);
        proof {
            assert(all.take(i + 1).drop_last() =~= all.take(i as int));
            assert(all.take(i + 1).last() == parts@[i as int]@);
        }
        match parse_param(parts[i].as_str()) {
            Some(p) => {
                out.push(p);
                assert(param_models(out@) =~= before.push(p@));
            },
            None => {},
        }
        i += 1;
    }
    assert(all.take(i as int) =~= all);
    out
}

/// What follows the parameter list in the header of a function.
pub open spec fn behind_params(header: Seq<char>) -> Seq<char> {
    let open = scan::first_stop(header, Stop::Params, 0);
    if open >= header.len() {
        Seq::empty()
    } else {
        let close = scan::closing_from(header, open + 1, 1);
        if close < header.len() {
            header.skip(close + 1)
        } else {
            Seq::empty()
        }
    }
}

/// The declared return type of a function, from its header: what stands behind
/// the arrow that follows the parameters, without a `where` clause.
pub open spec fn return_of(header: Seq<char>) -> Option<Seq<char>> {
    match scan::cut(scan::before_first(behind_params(header), " where "@), "->"@) {
        Some(p) => {
            let ty = scan::squeezed(p.1);
            if ty.len() == 0 {
                None
            } else {
                Some(ty)
            }
        },
        None => None,
    }
}

/// What follows the parameter list in the header of a function.
fn tail_of(header: &str) -> (r: String)
    ensures
        r@ == behind_params(header@),
{
    let chars = chars_of(header);
    let open: usize = find_stop(&chars, Stop::Params);
    if open == chars.len() {
        return String::new();
    }
    proof {
        scan::lemma_first_stop(chars@, Stop::Params, 0);
    }
    let close: usize = matching_paren(&chars, open);
    if close == chars.len() {
        return String::new();
    }
    let r = string_of(&chars, close + 1, chars.len());
    assert(r@ =~= header@.skip(close + 1));
    r
}

/// The declared return type of a function, from its header.
fn parse_return(header: &str) -> (r: Option<String>)
    ensures
        scan::view_of(r) == return_of(header@),
{
    let tail = tail_of(header);
    let declared = head_of(tail.as_str(), " where ");
    match split_once(declared.as_str(), "->") {
        Some((_head, after)) => {
            let ty = squeeze(after.as_str());
            if ty.as_str().unicode_len() == 0 {
                None
            } else {
                Some(ty)
            }
        },
        None => None,
    }
}

/// The item with the given header.
pub open spec fn item_of(
    header: Seq<char>,
    name: Seq<char>,
    kind: ItemKind,
    doc: Seq<Seq<char>>,
) -> ItemModel {
    ItemModel {
        name,
        kind,
        signature: scan::squeezed(header),
        doc,
        params: if kind == ItemKind::Function {
            params_of(header)
        } else {
            Seq::empty()
        },
        returns: if kind == ItemKind::Function {
            return_of(header)
        } else {
            None
        },
        examples: Seq::empty(),
    }
}

/// The item with the given header.
fn make_item(header: &str, name: String, kind: ItemKind, doc: Vec<String>) -> (r: DocItem)
    ensures
        r@ == item_of(header@, name@, kind, text::texts(doc@)),
{
    let mut params: Vec<ParamDoc> = Vec::new();
    let mut result: Option<String> = None;
    assert(param_models(params@) =~= Seq::<ParamModel>::empty());
    if kind == ItemKind::Function {
        params = parse_params(header);
        result = parse_return(header);
    }
    let examples: Vec<Example> = Vec::new();
    assert(example_models(examples@) =~= Seq::<ExampleModel>::empty());
    DocItem { name, kind, signature: squeeze(header), doc, params, returns: result, examples }
}

/// Whether a line is an attribute or a module-level doc comment, which stand
/// between a doc comment and the item it belongs to.
pub open spec fn is_between(line: Seq<char>) -> bool {
    text::has_prefix(line, "#["@) || text::has_prefix(line, "//!"@)
}

/// The items from line `index` on, where `pending` are the doc comment lines
/// that wait for their item.
pub open spec fn items_from(lines: Seq<Seq<char>>, index: int, pending: Seq<Seq<char>>) -> Seq<
    ItemModel,
>
    decreases lines.len() - index,
{
    if index < 0 || index >= lines.len() {
        Seq::empty()
    } else {
        let t = text::trim(lines[index]);
        match scan::after_prefix(t, "///"@) {
            Some(rest) => items_from(lines, index + 1, pending.push(text::trim(rest))),
            None => if is_between(t) {
                items_from(lines, index + 1, pending)
            } else {
                match kind_of(t) {
                    Some(kind) => {
                        let h = header_from(lines, index, Seq::empty());
                        proof {
                            lemma_header(lines, index, Seq::empty());
                        }
                        match name_of(h.0, kind) {
                            Some(name) => seq![item_of(h.0, name, kind, pending)] + items_from(
                                lines,
                                h.1,
                                Seq::empty(),
                            ),
                            None => items_from(lines, h.1, pending),
                        }
                    },
                    None => items_from(
                        lines,
                        index + 1,
                        if t.len() == 0 {
                            pending
                        } else {
                            Seq::empty()
                        },
                    ),
                }
            },
        }
    }
}

/// The documentation of a module with the given source.
pub open spec fn parsed(module: Seq<char>, source: Seq<char>) -> ModuleModel {
    ModuleModel {
        module,
        summary: summary_from(scan::lines(source), 0),
        items: items_from(scan::lines(source), 0, Seq::empty()),
    }
}

/// Parse a module's source text into its documentation model.
pub fn parse_module(module: &str, source: &str) -> (r: ModuleDoc)
    ensures
        r@ == parsed(module@, source@),
{
    let lines = lines_of(source);
    let ghost all = text::texts(lines@);
    let ghost nothing: Seq<Seq<char>> = Seq::empty();
    let summary = module_summary(&lines);
    let mut items: Vec<DocItem> = Vec::new();
    let mut pending: Vec<String> = Vec::new();
    let mut index: usize = 0;
    proof {
        assert(text::texts(pending@) =~= nothing);
        assert(item_models(items@) + items_from(all, 0, nothing) =~= items_from(all, 0, nothing));
    }
    while index < lines.len()
        invariant
            index <= lines@.len(),
            all == text::texts(lines@),
            nothing == Seq::<Seq<char>>::empty(),
            item_models(items@) + items_from(all, index as int, text::texts(pending@))
                == items_from(all, 0, nothing),
        decreases lines@.len() - index,
    {
        let ghost waiting = text::texts(pending@);
        let ghost before = item_models(items@);
        assert(all[index as int] == lines@[index as int]@);
        let t = trimmed(lines[index].as_str());
        match strip_prefix(t.as_str(), "///") {
            Some(rest) => {
                let line = trimmed(rest.as_str());
                pending.push(line);
                assert(text::texts(pending@) =~= waiting.push(line@));
                index += 1;
            },
            None => {
                if starts_with(t.as_str(), "#[") || starts_with(t.as_str(), "//!") {
                    index += 1;
                } else {
                    match item_kind_of(t.as_str()) {
                        Some(kind) => {
                            let (header, next) = collect_header(&lines, index);
                            match item_name(header.as_str(), kind) {
                                Some(name) => {
                                    let item = make_item(header.as_str(), name, kind, pending);
                                    pending = Vec::new();
                                    items.push(item);
                                    proof {
                                        assert(text::texts(pending@) =~= nothing);
                                        assert(item_models(items@) =~= before.push(item@));
                                        let rest = items_from(all, next as int, nothing);
                                        assert(item_models(items@) + rest =~= before + (seq![
                                            item@,
                                        ] + rest));
                                    }
                                },
                                None => {},
                            }
                            index = next;
                        },
                        None => {
                            if t.as_str().unicode_len() != 0 {
                                pending = Vec::new();
                                assert(text::texts(pending@) =~= nothing);
                            }
                            index += 1;
                        },
                    }
                }
            },
        }
    }
    assert(item_models(items@) + Seq::<ItemModel>::empty() =~= item_models(items@));
    ModuleDoc { module: module.to_owned(), summary, items }
}

/// Whether a line is the attribute of a test.
pub open spec fn is_test_attribute(line: Seq<char>) -> bool {
    ||| text::has_prefix(line, "#[test]"@)
    ||| text::has_prefix(line, "#["@) && text::occurs(line, "::test"@)
}

/// The first line from `i` on that holds a function header, or the number of
/// lines.
pub open spec fn function_line(lines: Seq<Seq<char>>, i: int) -> int
    decreases lines.len() - i,
{
    if i < 0 || i >= lines.len() {
        lines.len() as int
    } else if text::occurs(lines[i], "fn "@) {
        i
    } else {
        function_line(lines, i + 1)
    }
}

/// A function header comes no earlier than where the search starts.
pub proof fn lemma_function_line(lines: Seq<Seq<char>>, i: int)
    requires
        0 <= i <= lines.len(),
    ensures
        i <= function_line(lines, i) <= lines.len(),
    decreases lines.len() - i,
{
    if i < lines.len() {
        lemma_function_line(lines, i + 1);
    }
}

/// The depth of braces behind the characters of a line from `i` on; no closing
/// brace takes it below none.
pub open spec fn brace_depth(line: Seq<char>, i: int, depth: nat) -> nat
    decreases line.len() - i,
{
    if i < 0 || i >= line.len() {
        depth
    } else if line[i] == '{' {
        brace_depth(line, i + 1, depth + 1)
    } else if line[i] == '}' && depth > 0 {
        brace_depth(line, i + 1, (depth - 1) as nat)
    } else {
        brace_depth(line, i + 1, depth)
    }
}

/// The body that goes on with line `i`, and the line after it. It begins behind
/// the line that holds its opening brace, and ends with the line that closes
/// it, which does not belong to it.
pub open spec fn body_from(
    lines: Seq<Seq<char>>,
    i: int,
    depth: nat,
    opened: bool,
    body: Seq<Seq<char>>,
) -> (Seq<Seq<char>>, int)
    decreases lines.len() - i,
{
    if i < 0 || i >= lines.len() {
        (body, i)
    } else {
        let d = brace_depth(lines[i], 0, depth);
        if opened || lines[i].contains('{') {
            if d == 0 {
                (body, i + 1)
            } else {
                body_from(
                    lines,
                    i + 1,
                    d,
                    true,
                    if opened {
                        body.push(lines[i])
                    } else {
                        body
                    },
                )
            }
        } else {
            body_from(lines, i + 1, d, false, body)
        }
    }
}

/// A body ends no earlier than it starts.
pub proof fn lemma_body(
    lines: Seq<Seq<char>>,
    i: int,
    depth: nat,
    opened: bool,
    body: Seq<Seq<char>>,
)
    requires
        0 <= i <= lines.len(),
    ensures
        i <= body_from(lines, i, depth, opened, body).1 <= lines.len(),
        i < lines.len() ==> i < body_from(lines, i, depth, opened, body).1,
    decreases lines.len() - i,
{
    if i < lines.len() {
        let d = brace_depth(lines[i], 0, depth);
        lemma_body(lines, i + 1, d, true, body);
        lemma_body(lines, i + 1, d, true, body.push(lines[i]));
        lemma_body(lines, i + 1, d, false, body);
    }
}

/// How many bytes a character takes up in UTF-8.
pub open spec fn byte_width(c: char) -> nat {
    if (c as u32) < 0x80 {
        1
    } else if (c as u32) < 0x800 {
        2
    } else if (c as u32) < 0x1_0000 {
        3
    } else {
        4
    }
}

/// How many bytes a character takes up in UTF-8.
fn width_of(c: char) -> (r: u128)
    ensures
        r == byte_width(c),
        1 <= r <= 4,
{
    let code: u32 = c as u32;
    if code < 0x80 {
        1
    } else if code < 0x800 {
        2
    } else if code < 0x1_0000 {
        3
    } else {
        4
    }
}

/// How many bytes a text takes up.
pub open spec fn bytes_in(s: Seq<char>) -> nat
    decreases s.len(),
{
    if s.len() == 0 {
        0
    } else {
        bytes_in(s.drop_last()) + byte_width(s.last())
    }
}

/// How many bytes the first `n` characters take up.
fn bytes_before(chars: &Vec<char>, n: usize) -> (r: u128)
    requires
        n <= chars@.len(),
    ensures
        r == bytes_in(chars@.take(n as int)),
{
    let mut sum: u128 = 0;
    let mut i: usize = 0;
    assert(chars@.take(0) =~= Seq::<char>::empty());
    while i < n
        invariant
            i <= n <= chars@.len(),
            sum == bytes_in(chars@.take(i as int)),
            sum <= 4 * i,
        decreases n - i,
    {
        assert(chars@.take(i + 1).drop_last() =~= chars@.take(i as int));
        sum = sum + width_of(chars[i]);
        i += 1;
    }
    sum
}

/// The position behind those characters from `i` on that fit into `room` bytes.
pub open spec fn fitting(s: Seq<char>, i: int, room: int) -> int
    decreases s.len() - i,
{
    if i < 0 || i >= s.len() || byte_width(s[i]) > room {
        i
    } else {
        fitting(s, i + 1, room - byte_width(s[i]))
    }
}

/// How many of the first characters fit into `room` bytes.
fn fit(chars: &Vec<char>, room: u128) -> (r: usize)
    ensures
        r <= chars@.len(),
        r == fitting(chars@, 0, room as int),
{
    let mut left: u128 = room;
    let mut i: usize = 0;
    while i < chars.len()
        invariant
            i <= chars@.len(),
            fitting(chars@, 0, room as int) == fitting(chars@, i as int, left as int),
        decreases chars@.len() - i,
    {
        let w: u128 = width_of(chars[i]);
        if w > left {
            return i;
        }
        left = left - w;
        i += 1;
    }
    i
}

/// How many bytes of white space there are at the start of a line.
pub open spec fn indent_of(line: Seq<char>) -> nat {
    bytes_in(line.take(line.len() - text::trim_start(line).len()))
}

/// The smallest indentation of the lines that are not blank.
pub open spec fn common_indent(lines: Seq<Seq<char>>) -> Option<nat>
    decreases lines.len(),
{
    if lines.len() == 0 {
        None
    } else {
        let before = common_indent(lines.drop_last());
        let line = lines.last();
        if text::trim(line).len() == 0 {
            before
        } else {
            match before {
                Some(n) => if n <= indent_of(line) {
                    Some(n)
                } else {
                    Some(indent_of(line))
                },
                None => Some(indent_of(line)),
            }
        }
    }
}

/// A line without an indentation of the given number of bytes.
pub open spec fn outdented(line: Seq<char>, width: nat) -> Seq<char> {
    if bytes_in(line) >= width {
        line.skip(fitting(line, 0, width as int))
    } else {
        text::trim_start(line)
    }
}

/// Lines without their common indentation.
pub open spec fn dedented(lines: Seq<Seq<char>>) -> Seq<char> {
    let width = match common_indent(lines) {
        Some(n) => n,
        None => 0,
    };
    text::trim_end(text::join(lines.map_values(|l: Seq<char>| outdented(l, width)), "\n"@))
}

/// Lines without their common indentation.
fn dedent(lines: &Vec<String>) -> (r: String)
    ensures
        r@ == dedented(text::texts(lines@)),
{
    let ghost all = text::texts(lines@);
    let mut width: Option<u128> = None;
    let mut i: usize = 0;
    assert(all.take(0) =~= Seq::<Seq<char>>::empty());
    while i < lines.len()
        invariant
            i <= lines@.len(),
            all == text::texts(lines@),
            match width {
                Some(n) => common_indent(all.take(i as int)) == Some(n as nat),
                None => common_indent(all.take(i as int)) is None,
            },
        decreases lines@.len() - i,
    {
        proof {
            assert(all.take(i + 1).drop_last() =~= all.take(i as int));
            assert(all.take(i + 1).last() == lines@[i as int]@);
            scan::lemma_trim_start_len(lines@[i as int]@);
        }
        let t = trimmed(lines[i].as_str());
        if t.as_str().unicode_len() != 0 {
            let rest = trimmed_start(lines[i].as_str());
            let chars = chars_of(lines[i].as_str());
            let indent: u128 = bytes_before(&chars, chars.len() - rest.as_str().unicode_len());
            width = match width {
                Some(n) => if n <= indent {
                    Some(n)
                } else {
                    Some(indent)
                },
                None => Some(indent),
            };
        }
        i += 1;
    }
    assert(all.take(i as int) =~= all);
    let n: u128 = match width {
        Some(w) => w,
        None => 0,
    };
    let ghost cut = all.map_values(|l: Seq<char>| outdented(l, n as nat));
    let mut out: Vec<String> = Vec::new();
    let mut k: usize = 0;
    while k < lines.len()
        invariant
            k <= lines@.len(),
            all == text::texts(lines@),
            out@.len() == k,
            forall|j: int|
                0 <= j < k ==> (#[trigger] out@[j])@ == outdented(lines@[j]@, n as nat),
        decreases lines@.len() - k,
    {
        let chars = chars_of(lines[k].as_str());
        let len: usize = chars.len();
        assert(chars@.take(len as int) =~= chars@);
        if bytes_before(&chars, len) >= n {
            let from: usize = fit(&chars, n);
            let rest = string_of(&chars, from, len);
            assert(rest@ =~= lines@[k as int]@.skip(from as int));
            out.push(rest);
        } else {
            out.push(trimmed_start(lines[k].as_str()));
        }
        k += 1;
    }
    proof {
        assert forall|j: int| 0 <= j < cut.len() implies #[trigger] text::texts(out@)[j]
            == cut[j] by {
            assert(out@[j]@ == outdented(lines@[j]@, n as nat));
        }
        assert(text::texts(out@) =~= cut);
    }
    let joined = join_list(&out, "\n");
    trimmed_end(joined.as_str())
}

/// The depth of braces behind a line, and whether the line has an opening one.
fn scan_braces(line: &str, depth: usize) -> (r: (usize, bool))
    requires
        depth + line@.len() <= usize::MAX,
    ensures
        r.0 == brace_depth(line@, 0, depth as nat),
        r.0 <= depth + line@.len(),
        r.1 == line@.contains('{'),
{
    let chars = chars_of(line);
    let mut d: usize = depth;
    let mut seen: bool = false;
    let mut i: usize = 0;
    while i < chars.len()
        invariant
            chars@ == line@,
            i <= chars@.len(),
            depth + line@.len() <= usize::MAX,
            d <= depth + i,
            brace_depth(line@, 0, depth as nat) == brace_depth(line@, i as int, d as nat),
            seen == line@.take(i as int).contains('{'),
        decreases chars@.len() - i,
    {
        proof {
            let shorter = line@.take(i as int);
            let longer = line@.take(i + 1);
            assert(longer =~= shorter.push(line@[i as int]));
            if shorter.contains('{') {
                assert(longer[shorter.index_of('{')] == '{');
            }
            if line@[i as int] == '{' {
                assert(longer[i as int] == '{');
            }
            if longer.contains('{') && !shorter.contains('{') {
                let x = longer.index_of('{');
                if x < i {
                    assert(shorter[x] == '{');
                }
            }
        }
        if chars[i] == '{' {
            d += 1;
            seen = true;
        } else if chars[i] == '}' && d > 0 {
            d -= 1;
        }
        i += 1;
    }
    assert(line@.take(i as int) =~= line@);
    (d, seen)
}

/// How many characters some lines have.
pub open spec fn total_len(lines: Seq<Seq<char>>) -> nat
    decreases lines.len(),
{
    if lines.len() == 0 {
        0
    } else {
        total_len(lines.drop_last()) + lines.last().len()
    }
}

/// Collect the brace-delimited body starting at or after `start`, dedented to
/// the innermost common indentation.
fn collect_body(lines: &Vec<String>, start: usize) -> (r: (String, usize))
    requires
        start <= lines@.len(),
        total_len(text::texts(lines@)) <= usize::MAX,
    ensures
        ({
            let b = body_from(text::texts(lines@), start as int, 0, false, Seq::empty());
            r.0@ == dedented(b.0) && r.1 == b.1
        }),
        start <= r.1 <= lines@.len(),
{
    let ghost all = text::texts(lines@);
    let ghost nothing: Seq<Seq<char>> = Seq::empty();
    proof {
        lemma_body(all, start as int, 0, false, nothing);
    }
    let mut depth: usize = 0;
    let mut opened: bool = false;
    let mut body: Vec<String> = Vec::new();
    let mut index: usize = start;
    assert(text::texts(body@) =~= nothing);
    while index < lines.len()
        invariant
            start <= index <= lines@.len(),
            all == text::texts(lines@),
            nothing == Seq::<Seq<char>>::empty(),
            total_len(all) <= usize::MAX,
            depth <= total_len(all.take(index as int)),
            body_from(all, start as int, 0, false, nothing) == body_from(
                all,
                index as int,
                depth as nat,
                opened,
                text::texts(body@),
            ),
        decreases lines@.len() - index,
    {
        let ghost before = text::texts(body@);
        proof {
            assert(all[index as int] == lines@[index as int]@);
            assert(all.take(index + 1).drop_last() =~= all.take(index as int));
            lemma_total_len(all, index + 1);
        }
        let (d, seen) = scan_braces(lines[index].as_str(), depth);
        depth = d;
        if opened || seen {
            if depth == 0 {
                return (dedent(&body), index + 1);
            }
            if opened {
                body.push(lines[index].clone());
                assert(text::texts(body@) =~= before.push(all[index as int]));
            }
            opened = true;
        }
        index += 1;
    }
    (dedent(&body), index)
}

/// The first lines have no more characters than all.
proof fn lemma_total_len(lines: Seq<Seq<char>>, n: int)
    requires
        0 <= n <= lines.len(),
    ensures
        total_len(lines.take(n)) <= total_len(lines),
    decreases lines.len() - n,
{
    if n == lines.len() {
        assert(lines.take(n) =~= lines);
    } else {
        lemma_total_len(lines, n + 1);
        assert(lines.take(n + 1).drop_last() =~= lines.take(n));
    }
}

/// How many characters a list of lines with one more in front has.
proof fn lemma_total_cons(line: Seq<char>, rest: Seq<Seq<char>>)
    ensures
        total_len(seq![line] + rest) == line.len() + total_len(rest),
    decreases rest.len(),
{
    let all = seq![line] + rest;
    if rest.len() == 0 {
        assert(all.drop_last() =~= Seq::<Seq<char>>::empty());
        assert(all.last() == line);
        assert(total_len(all.drop_last()) == 0);
    } else {
        assert(all.last() == rest.last());
        assert(all.drop_last() =~= seq![line] + rest.drop_last());
        lemma_total_cons(line, rest.drop_last());
    }
}

/// The lines of a text have no more characters than the text.
proof fn lemma_lines_len(s: Seq<char>)
    ensures
        total_len(scan::lines(s)) <= s.len(),
    decreases s.len(),
{
    let at = text::first_at(s, '\n', 0);
    if s.len() > 0 {
        if 0 <= at < s.len() {
            lemma_lines_len(s.skip(at + 1));
            lemma_total_cons(scan::without_return(s.take(at)), scan::lines(s.skip(at + 1)));
        } else {
            lemma_total_cons(s, Seq::empty());
            assert(seq![s] + Seq::<Seq<char>>::empty() =~= seq![s]);
        }
    }
}

/// The examples from line `index` on: each test gives its name and its body.
pub open spec fn examples_from(lines: Seq<Seq<char>>, index: int) -> Seq<ExampleModel>
    decreases lines.len() - index,
{
    if index < 0 || index >= lines.len() {
        Seq::empty()
    } else if !is_test_attribute(text::trim(lines[index])) {
        examples_from(lines, index + 1)
    } else {
        let cursor = function_line(lines, index + 1);
        if cursor >= lines.len() {
            Seq::empty()
        } else {
            let h = header_from(lines, cursor, Seq::empty());
            let b = body_from(lines, h.1 - 1, 0, false, Seq::empty());
            proof {
                lemma_function_line(lines, index + 1);
                lemma_header(lines, cursor, Seq::empty());
                lemma_body(lines, h.1 - 1, 0, false, Seq::empty());
            }
            match name_of(h.0, ItemKind::Function) {
                Some(name) => seq![ExampleModel { name, code: dedented(b.0) }] + examples_from(
                    lines,
                    b.1,
                ),
                None => examples_from(lines, cursor + 1),
            }
        }
    }
}

/// Extract examples from test source: every `#[test]` (or `#[tokio::test]`)
/// function becomes a candidate example keyed by its own name.
pub fn extract_examples(source: &str) -> (r: Vec<Example>)
    ensures
        example_models(r@) == examples_from(scan::lines(source@), 0),
{
    let chars = chars_of(source);
    let _n: usize = chars.len();
    let lines = lines_of(source);
    let ghost all = text::texts(lines@);
    proof {
        lemma_lines_len(source@);
    }
    let mut out: Vec<Example> = Vec::new();
    let mut index: usize = 0;
    assert(example_models(out@) + examples_from(all, 0) =~= examples_from(all, 0));
    while index < lines.len()
        invariant
            index <= lines@.len(),
            all == text::texts(lines@),
            total_len(all) <= usize::MAX,
            all == scan::lines(source@),
            example_models(out@) + examples_from(all, index as int) == examples_from(all, 0),
        decreases lines@.len() - index,
    {
        let ghost before = example_models(out@);
        assert(all[index as int] == lines@[index as int]@);
        let t = trimmed(lines[index].as_str());
        let is_test: bool = starts_with(t.as_str(), "#[test]") || (starts_with(t.as_str(), "#[")
            && contains(t.as_str(), "::test"));
        if !is_test {
            index += 1;
        } else {
            let ghost first = index + 1;
            let mut cursor: usize = index + 1;
            while cursor < lines.len() && !contains(lines[cursor].as_str(), "fn ")
                invariant
                    first <= cursor <= lines@.len(),
                    all == text::texts(lines@),
                    function_line(all, first) == function_line(all, cursor as int),
                decreases lines@.len() - cursor,
            {
                assert(all[cursor as int] == lines@[cursor as int]@);
                cursor += 1;
            }
            proof {
                if cursor < lines@.len() {
                    assert(all[cursor as int] == lines@[cursor as int]@);
                }
                assert(function_line(all, first) == cursor);
            }
            if cursor >= lines.len() {
                assert(before + Seq::<ExampleModel>::empty() =~= before);
                return out;
            }
            let (header, next) = collect_header(&lines, cursor);
            match item_name(header.as_str(), ItemKind::Function) {
                Some(name) => {
                    let (code, after) = collect_body(&lines, next - 1);
                    let example = Example { name, code };
                    out.push(example);
                    proof {
                        lemma_body(all, next - 1, 0, false, Seq::empty());
                        assert(example_models(out@) =~= before.push(example@));
                        let rest = examples_from(all, after as int);
                        assert(example_models(out@) + rest =~= before + (seq![example@] + rest));
                    }
                    index = after;
                },
                None => {
                    index = cursor + 1;
                },
            }
        }
    }
    assert(example_models(out@) + Seq::<ExampleModel>::empty() =~= example_models(out@));
    out
}

/// An item with the examples whose name holds its own.
pub open spec fn with_examples(item: ItemModel, examples: Seq<ExampleModel>) -> ItemModel {
    ItemModel {
        examples: examples.filter(|e: ExampleModel| text::occurs(e.name, item.name)),
        ..item
    }
}

/// The examples whose name holds that of an item.
fn examples_for(name: &str, examples: &Vec<Example>) -> (r: Vec<Example>)
    ensures
        example_models(r@) == example_models(examples@).filter(
            |e: ExampleModel| text::occurs(e.name, name@),
        ),
{
    let ghost all = example_models(examples@);
    let ghost pred = |e: ExampleModel| text::occurs(e.name, name@);
    let mut out: Vec<Example> = Vec::new();
    let mut i: usize = 0;
    proof {
        reveal(Seq::filter);
        assert(all.take(0).filter(pred) =~= Seq::<ExampleModel>::empty());
        assert(example_models(out@) =~= Seq::<ExampleModel>::empty());
    }
    while i < examples.len()
        invariant
            i <= examples@.len(),
            all == example_models(examples@),
            pred == (|e: ExampleModel| text::occurs(e.name, name@)),
            example_models(out@) == all.take(i as int).filter(pred),
        decreases examples@.len() - i,
    {
        let ghost before = example_models(out@);
        proof {
            reveal(Seq::filter);
            assert(all.take(i + 1).drop_last() =~= all.take(i as int));
            assert(all.take(i + 1).last() == examples@[i as int]@);
        }
        if contains(examples[i].name.as_str(), name) {
            let copy = examples[i].clone();
            out.push(copy);
            assert(example_models(out@) =~= before.push(copy@));
        }
        i += 1;
    }
    assert(all.take(i as int) =~= all);
    out
}

/// Attach examples to the items they exercise, matching a test name against
/// the item name (`fn evaluate_flag` gets `test_evaluate_flag_defaults`).
pub fn attach_examples(doc: &mut ModuleDoc, examples: &Vec<Example>)
    ensures
        final(doc)@ == attached(old(doc)@, example_models(examples@)),
{
    let ghost given = example_models(examples@);
    let ghost items = item_models(doc.items@);
    let n: usize = doc.items.len();
    let mut i: usize = 0;
    while i < n
        invariant
            i <= n,
            n == doc.items@.len(),
            n == items.len(),
            given == example_models(examples@),
            items == item_models(old(doc).items@),
            doc.module == old(doc).module,
            doc.summary == old(doc).summary,
            forall|j: int|
                0 <= j < i ==> (#[trigger] doc.items@[j])@ == with_examples(items[j], given),
            forall|j: int| i <= j < n ==> (#[trigger] doc.items@[j])@ == items[j],
        decreases n - i,
    {
        assert(doc.items@[i as int]@ == items[i as int]);
        let chosen = examples_for(doc.items[i].name.as_str(), examples);
        let item = &mut doc.items[i];
        item.examples = chosen;
        assert(doc.items@[i as int]@ =~= with_examples(items[i as int], given));
        i += 1;
    }
    assert(doc@ =~= attached(old(doc)@, given));
}

/// A module with examples attached to its items.
pub open spec fn attached(doc: ModuleModel, examples: Seq<ExampleModel>) -> ModuleModel {
    ModuleModel {
        items: Seq::new(doc.items.len(), |i: int| with_examples(doc.items[i], examples)),
        ..doc
    }
}

/// The lines of some parameters.
pub open spec fn rendered_params(params: Seq<ParamModel>) -> Seq<char>
    decreases params.len(),
{
    if params.len() == 0 {
        Seq::empty()
    } else {
        rendered_params(params.drop_last()) + "- `"@ + params.last().name + "`: `"@
            + params.last().ty + "`\n"@
    }
}

/// The sections of some examples.
pub open spec fn rendered_examples(examples: Seq<ExampleModel>) -> Seq<char>
    decreases examples.len(),
{
    if examples.len() == 0 {
        Seq::empty()
    } else {
        rendered_examples(examples.drop_last()) + "\n**Example** (from `"@ + examples.last().name
            + "`)\n\n```rust\n"@ + examples.last().code + "\n```\n"@
    }
}

/// A paragraph of some lines, if there are any.
pub open spec fn rendered_lines(lines: Seq<Seq<char>>) -> Seq<char> {
    if lines.len() == 0 {
        Seq::empty()
    } else {
        "\n"@ + text::join(lines, "\n"@) + "\n"@
    }
}

/// The heading of an item, and its signature.
pub open spec fn rendered_heading(item: ItemModel) -> Seq<char> {
    "\n## `"@ + item.kind.spec_label() + " "@ + item.name + "`\n\n```rust\n"@ + item.signature
        + "\n```\n"@
}

/// The parameters of an item, if there are any.
pub open spec fn rendered_param_list(params: Seq<ParamModel>) -> Seq<char> {
    if params.len() == 0 {
        Seq::empty()
    } else {
        "\n**Parameters**\n\n"@ + rendered_params(params)
    }
}

/// The return type of an item, if it has one.
pub open spec fn rendered_return(ty: Option<Seq<char>>) -> Seq<char> {
    match ty {
        Some(t) => "\n**Returns**: `"@ + t + "`\n"@,
        None => Seq::empty(),
    }
}

/// The section of an item.
pub open spec fn rendered_item(item: ItemModel) -> Seq<char> {
    rendered_heading(item) + rendered_lines(item.doc) + rendered_param_list(item.params)
        + rendered_return(item.returns) + rendered_examples(item.examples)
}

/// The sections of some items.
pub open spec fn rendered_items(items: Seq<ItemModel>) -> Seq<char>
    decreases items.len(),
{
    if items.len() == 0 {
        Seq::empty()
    } else {
        rendered_items(items.drop_last()) + rendered_item(items.last())
    }
}

/// The document of a module.
pub open spec fn rendered(doc: ModuleModel) -> Seq<char> {
    "# Module `"@ + doc.module + "`\n"@ + rendered_lines(doc.summary) + rendered_items(doc.items)
}

/// Writes a paragraph of some lines, if there are any.
fn render_lines(out: &mut String, lines: &Vec<String>)
    ensures
        final(out)@ == old(out)@ + rendered_lines(text::texts(lines@)),
{
    if lines.len() > 0 {
        let all = join_list(lines, "\n");
        out.append("\n");
        out.append(all.as_str());
        out.append("\n");
    }
    assert(out@ =~= old(out)@ + rendered_lines(text::texts(lines@)));
}

/// Writes the lines of some parameters.
fn render_params(out: &mut String, params: &Vec<ParamDoc>)
    ensures
        final(out)@ == old(out)@ + rendered_params(param_models(params@)),
{
    let ghost all = param_models(params@);
    let mut i: usize = 0;
    assert(all.take(0) =~= Seq::<ParamModel>::empty());
    assert(out@ =~= old(out)@ + rendered_params(all.take(0)));
    while i < params.len()
        invariant
            i <= params@.len(),
            all == param_models(params@),
            out@ == old(out)@ + rendered_params(all.take(i as int)),
        decreases params@.len() - i,
    {
        proof {
            assert(all.take(i + 1).drop_last() =~= all.take(i as int));
            assert(all.take(i + 1).last() == params@[i as int]@);
        }
        out.append("- `");
        out.append(params[i].name.as_str());
        out.append("`: `");
        out.append(params[i].ty.as_str());
        out.append("`\n");
        i += 1;
        assert(out@ =~= old(out)@ + rendered_params(all.take(i as int)));
    }
    assert(all.take(i as int) =~= all);
}

/// Writes the sections of some examples.
fn render_examples(out: &mut String, examples: &Vec<Example>)
    ensures
        final(out)@ == old(out)@ + rendered_examples(example_models(examples@)),
{
    let ghost all = example_models(examples@);
    let mut i: usize = 0;
    assert(all.take(0) =~= Seq::<ExampleModel>::empty());
    assert(out@ =~= old(out)@ + rendered_examples(all.take(0)));
    while i < examples.len()
        invariant
            i <= examples@.len(),
            all == example_models(examples@),
            out@ == old(out)@ + rendered_examples(all.take(i as int)),
        decreases examples@.len() - i,
    {
        proof {
            assert(all.take(i + 1).drop_last() =~= all.take(i as int));
            assert(all.take(i + 1).last() == examples@[i as int]@);
        }
        out.append("\n**Example** (from `");
        out.append(examples[i].name.as_str());
        out.append("`)\n\n```rust\n");
        out.append(examples[i].code.as_str());
        out.append("\n```\n");
        i += 1;
        assert(out@ =~= old(out)@ + rendered_examples(all.take(i as int)));
    }
    assert(all.take(i as int) =~= all);
}

/// Writes the heading of an item, and its signature.
fn render_heading(out: &mut String, item: &DocItem)
    ensures
        final(out)@ == old(out)@ + rendered_heading(item@),
{
    let mut heading = "\n## `".to_owned();
    heading.append(item.kind.label());
    heading.append(" ");
    heading.append(item.name.as_str());
    heading.append("`\n\n```rust\n");
    heading.append(item.signature.as_str());
    heading.append("\n```\n");
    out.append(heading.as_str());
}

/// Writes the parameters of an item, if there are any.
fn render_param_list(out: &mut String, params: &Vec<ParamDoc>)
    ensures
        final(out)@ == old(out)@ + rendered_param_list(param_models(params@)),
{
    if params.len() > 0 {
        out.append("\n**Parameters**\n\n");
        render_params(out, params);
    }
    assert(out@ =~= old(out)@ + rendered_param_list(param_models(params@)));
}

/// Writes the return type of an item, if it has one.
fn render_return(out: &mut String, ty: &Option<String>)
    ensures
        final(out)@ == old(out)@ + rendered_return(scan::view_of(*ty)),
{
    match ty {
        Some(t) => {
            let mut line = "\n**Returns**: `".to_owned();
            line.append(t.as_str());
            line.append("`\n");
            out.append(line.as_str());
        },
        None => {
            assert(out@ =~= old(out)@ + Seq::<char>::empty());
        },
    }
}

/// Writes the section of an item.
fn render_item(out: &mut String, item: &DocItem)
    ensures
        final(out)@ == old(out)@ + rendered_item(item@),
{
    let ghost m = item@;
    render_heading(out, item);
    render_lines(out, &item.doc);
    render_param_list(out, &item.params);
    render_return(out, &item.returns);
    render_examples(out, &item.examples);
    proof {
        lemma_five(
            old(out)@,
            rendered_heading(m),
            rendered_lines(m.doc),
            rendered_param_list(m.params),
            rendered_return(m.returns),
            rendered_examples(m.examples),
        );
    }
}

/// Five texts written one after the other.
proof fn lemma_five(
    s: Seq<char>,
    a: Seq<char>,
    b: Seq<char>,
    c: Seq<char>,
    d: Seq<char>,
    e: Seq<char>,
)
    ensures
        s + a + b + c + d + e == s + (a + b + c + d + e),
{
    assert(s + a + b + c + d + e =~= s + (a + b + c + d + e));
}

/// Render a module's documentation as markdown.
pub fn render_markdown(doc: &ModuleDoc) -> (r: String)
    ensures
        r@ == rendered(doc@),
{
    let mut out = "# Module `".to_owned();
    out.append(doc.module.as_str());
    out.append("`\n");
    render_lines(&mut out, &doc.summary);
    let ghost start = out@;
    let ghost all = item_models(doc.items@);
    let mut i: usize = 0;
    assert(all.take(0) =~= Seq::<ItemModel>::empty());
    assert(out@ =~= start + rendered_items(all.take(0)));
    while i < doc.items.len()
        invariant
            i <= doc.items@.len(),
            all == item_models(doc.items@),
            out@ == start + rendered_items(all.take(i as int)),
        decreases doc.items@.len() - i,
    {
        proof {
            assert(all.take(i + 1).drop_last() =~= all.take(i as int));
            assert(all.take(i + 1).last() == doc.items@[i as int]@);
        }
        render_item(&mut out, &doc.items[i]);
        i += 1;
        assert(out@ =~= start + rendered_items(all.take(i as int)));
    }
    assert(all.take(i as int) =~= all);
    out
}

/// The document of a module with the given source, with examples from the given
/// tests.
pub open spec fn generated(
    module: Seq<char>,
    source: Seq<char>,
    test_source: Option<&str>,
) -> Seq<char> {
    match test_source {
        Some(tests) => rendered(
            attached(parsed(module, source), examples_from(scan::lines(tests@), 0)),
        ),
        None => rendered(parsed(module, source)),
    }
}

/// Generate markdown for a module in one call: parse the source, pull examples
/// from the test source, and render.
pub fn generate(module: &str, source: &str, test_source: Option<&str>) -> (r: String)
    ensures
        r@ == generated(module@, source@, test_source),
{
    let mut doc = parse_module(module, source);
    match test_source {
        Some(tests) => {
            let examples = extract_examples(tests);
            attach_examples(&mut doc, &examples);
        },
        None => {},
    }
    render_markdown(&doc)
}

/// Whether some line begins a public item of the given kind.
pub open spec fn declared(lines: Seq<Seq<char>>, kind: ItemKind) -> bool {
    exists|i: int|
        0 <= i < lines.len() && kind_of(text::trim(#[trigger] lines[i])) == Some(kind)
            && text::has_prefix(text::trim(lines[i]), "pub "@)
}

/// Every documented item has a name, stands behind a public declaration of its
/// kind and has no examples yet, and only functions have parameters and a
/// return type.
pub proof fn law_only_public_items(
    lines: Seq<Seq<char>>,
    index: int,
    pending: Seq<Seq<char>>,
    k: int,
)
    requires
        0 <= index <= lines.len(),
        0 <= k < items_from(lines, index, pending).len(),
    ensures
        ({
            let item = items_from(lines, index, pending)[k];
            &&& item.name.len() > 0
            &&& declared(lines, item.kind)
            &&& item.examples.len() == 0
            &&& item.kind != ItemKind::Function ==> item.params.len() == 0 && item.returns is None
        }),
    decreases lines.len() - index,
{
    let t = text::trim(lines[index]);
    match scan::after_prefix(t, "///"@) {
        Some(rest) => {
            law_only_public_items(lines, index + 1, pending.push(text::trim(rest)), k);
        },
        None => {
            if is_between(t) {
                law_only_public_items(lines, index + 1, pending, k);
            } else {
                match kind_of(t) {
                    Some(kind) => {
                        let h = header_from(lines, index, Seq::empty());
                        lemma_header(lines, index, Seq::empty());
                        match name_of(h.0, kind) {
                            Some(name) => {
                                if k > 0 {
                                    law_only_public_items(lines, h.1, Seq::empty(), k - 1);
                                } else {
                                    assert(kind_of(text::trim(lines[index])) == Some(kind));
                                }
                            },
                            None => {
                                law_only_public_items(lines, h.1, pending, k);
                            },
                        }
                    },
                    None => {
                        let kept = if t.len() == 0 {
                            pending
                        } else {
                            Seq::empty()
                        };
                        law_only_public_items(lines, index + 1, kept, k);
                    },
                }
            }
        },
    }
}

/// What is left of a list when it is filtered was there before.
proof fn lemma_filtered_from(
    examples: Seq<ExampleModel>,
    pred: spec_fn(ExampleModel) -> bool,
    k: int,
)
    requires
        0 <= k < examples.filter(pred).len(),
    ensures
        examples.contains(examples.filter(pred)[k]),
    decreases examples.len(),
{
    reveal(Seq::filter);
    let short = examples.drop_last();
    if k < short.filter(pred).len() {
        lemma_filtered_from(short, pred, k);
        let i = short.index_of(short.filter(pred)[k]);
        assert(examples[i] == short[i]);
    } else {
        assert(examples[examples.len() - 1] == examples.filter(pred)[k]);
    }
}

/// Every example that is attached to an item holds its name, and comes from
/// those that were given.
pub proof fn law_examples_name_their_item(item: ItemModel, examples: Seq<ExampleModel>, k: int)
    requires
        0 <= k < with_examples(item, examples).examples.len(),
    ensures
        text::occurs(with_examples(item, examples).examples[k].name, item.name),
        examples.contains(with_examples(item, examples).examples[k]),
{
    let pred = |e: ExampleModel| text::occurs(e.name, item.name);
    examples.lemma_filter_pred(pred, k);
    lemma_filtered_from(examples, pred, k);
}

/// A public declaration is known by its keyword, and nothing that is not public is
/// documented.
pub proof fn law_declarations_by_keyword(rest: Seq<char>, line: Seq<char>)
    ensures
        kind_of("pub struct "@ + rest) == Some(ItemKind::Struct),
        kind_of("pub enum "@ + rest) == Some(ItemKind::Enum),
        kind_of("pub trait "@ + rest) == Some(ItemKind::Trait),
        kind_of("pub type "@ + rest) == Some(ItemKind::TypeAlias),
        text::trim(rest).len() > 0 ==> kind_of("pub fn "@ + rest) == Some(ItemKind::Function),
        text::trim(rest).len() > 0 ==> kind_of("pub async fn "@ + rest) == Some(ItemKind::Function),
        !text::has_prefix(line, "pub "@) ==> kind_of(line) is None,
{
    reveal_strlit("pub ");
    reveal_strlit("struct ");
    reveal_strlit("enum ");
    reveal_strlit("trait ");
    reveal_strlit("type ");
    reveal_strlit("fn ");
    reveal_strlit("async fn ");
    reveal_strlit("pub struct ");
    reveal_strlit("pub enum ");
    reveal_strlit("pub trait ");
    reveal_strlit("pub type ");
    reveal_strlit("pub fn ");
    reveal_strlit("pub async fn ");
    lemma_keyword("struct "@, rest);
    lemma_keyword("enum "@, rest);
    lemma_keyword("trait "@, rest);
    lemma_keyword("type "@, rest);
    lemma_keyword("fn "@, rest);
    lemma_keyword("async fn "@, rest);
    assert("pub struct "@ + rest =~= "pub "@ + ("struct "@ + rest));
    assert("pub enum "@ + rest =~= "pub "@ + ("enum "@ + rest));
    assert("pub trait "@ + rest =~= "pub "@ + ("trait "@ + rest));
    assert("pub type "@ + rest =~= "pub "@ + ("type "@ + rest));
    assert("pub fn "@ + rest =~= "pub "@ + ("fn "@ + rest));
    assert("pub async fn "@ + rest =~= "pub "@ + ("async fn "@ + rest));
    lemma_other_head("struct "@ + rest, "async fn "@);
    lemma_other_head("struct "@ + rest, "fn "@);
    lemma_other_head("enum "@ + rest, "async fn "@);
    lemma_other_head("enum "@ + rest, "fn "@);
    lemma_other_head("enum "@ + rest, "struct "@);
    lemma_other_head("trait "@ + rest, "async fn "@);
    lemma_other_head("trait "@ + rest, "fn "@);
    lemma_other_head("trait "@ + rest, "struct "@);
    lemma_other_head("trait "@ + rest, "enum "@);
    lemma_other_head("type "@ + rest, "async fn "@);
    lemma_other_head("type "@ + rest, "fn "@);
    lemma_other_head("type "@ + rest, "struct "@);
    lemma_other_head("type "@ + rest, "enum "@);
    lemma_other_head("type "@ + rest, "trait "@);
    lemma_other_head("fn "@ + rest, "async fn "@);
}

/// What follows the word for public is read behind it, where it begins with a
/// keyword.
proof fn lemma_keyword(keyword: Seq<char>, rest: Seq<char>)
    requires
        keyword.len() > 0,
        !text::is_space(keyword[0]),
    ensures
        scan::after_prefix("pub "@ + (keyword + rest), "pub "@) == Some(keyword + rest),
        text::trim_start(keyword + rest) == keyword + rest,
        text::has_prefix(keyword + rest, keyword),
        scan::after_prefix(keyword + rest, keyword) == Some(rest),
{
    scan::law_prefix_is_taken_off("pub "@, keyword + rest, keyword);
    scan::law_prefix_is_taken_off(keyword, rest, keyword);
    text::law_prefix_is_what_comes_first(keyword, rest, keyword);
    assert((keyword + rest)[0] == keyword[0]);
}

/// A text does not begin with another one that differs in its first two
/// characters.
proof fn lemma_other_head(s: Seq<char>, prefix: Seq<char>)
    requires
        prefix.len() >= 2,
        s.len() >= 2,
        s[0] != prefix[0] || s[1] != prefix[1],
    ensures
        !text::has_prefix(s, prefix),
{
    if text::has_prefix(s, prefix) {
        let h = s.subrange(0, prefix.len() as int);
        assert(h[0] == s[0] && h[1] == s[1]);
    }
}

/// A parameter has a name and a type: what has no binding is none, and neither are
/// receivers and patterns.
pub proof fn law_parameters_have_names(part: Seq<char>)
    ensures
        param_of(part) is Some ==> param_of(part)->0.name != "self"@ && param_of(part)->0.name
            != "mut self"@,
        param_of(part) is Some ==> !text::occurs(param_of(part)->0.name, "("@) && !text::occurs(
            param_of(part)->0.name,
            "["@,
        ) && !text::occurs(param_of(part)->0.name, "{"@) && !text::occurs(
            param_of(part)->0.name,
            "&"@,
        ),
        (forall|i: int| 0 <= i < text::trim(part).len() ==> text::trim(part)[i] != ':')
            ==> param_of(part) is None,
{
    let t = text::trim(part);
    scan::lemma_first_stop(t, Stop::Binding, 0);
}

/// The parameters of a list come in its order, one for each part that is one.
pub proof fn law_parameters_come_in_order(parts: Seq<Seq<char>>, part: Seq<char>)
    ensures
        params_in(Seq::<Seq<char>>::empty()).len() == 0,
        param_of(part) is Some ==> params_in(parts.push(part)) == params_in(parts).push(
            param_of(part)->0,
        ),
        param_of(part) is None ==> params_in(parts.push(part)) == params_in(parts),
{
    assert(parts.push(part).drop_last() =~= parts);
}

/// Documentation lines wait for the next declaration: empty lines and attributes do
/// not disturb them, and any other line discards them.
pub proof fn law_documentation_waits_for_its_item(
    lines: Seq<Seq<char>>,
    index: int,
    pending: Seq<Seq<char>>,
    rest: Seq<char>,
)
    requires
        0 <= index < lines.len(),
    ensures
        text::trim(lines[index]) == "///"@ + rest ==> items_from(lines, index, pending)
            == items_from(lines, index + 1, pending.push(text::trim(rest))),
        text::trim(lines[index]) == "#["@ + rest ==> items_from(lines, index, pending)
            == items_from(lines, index + 1, pending),
        text::trim(lines[index]).len() == 0 ==> items_from(lines, index, pending) == items_from(
            lines,
            index + 1,
            pending,
        ),
        text::trim(lines[index]).len() > 0 && !text::has_prefix(text::trim(lines[index]), "///"@)
            && !text::has_prefix(text::trim(lines[index]), "#["@) && !text::has_prefix(
            text::trim(lines[index]),
            "//!"@,
        ) && !text::has_prefix(text::trim(lines[index]), "pub "@) ==> items_from(
            lines,
            index,
            pending,
        ) == items_from(lines, index + 1, Seq::empty()),
{
    reveal_strlit("///");
    reveal_strlit("#[");
    reveal_strlit("//!");
    reveal_strlit("pub ");
    let t = text::trim(lines[index]);
    scan::law_prefix_is_taken_off("///"@, rest, t);
    text::law_prefix_is_what_comes_first("#["@, rest, t);
    if t == "#["@ + rest {
        assert(t[0] == '#');
        lemma_other_head(t, "///"@);
    }
}

/// The summary of a module is made of its leading documentation lines: empty lines
/// do not end it, and the first other line does.
pub proof fn law_summary_is_what_leads(lines: Seq<Seq<char>>, i: int, rest: Seq<char>)
    requires
        0 <= i < lines.len(),
    ensures
        text::trim(lines[i]) == "//!"@ + rest ==> summary_from(lines, i) == seq![text::trim(rest)]
            + summary_from(lines, i + 1),
        text::trim(lines[i]).len() == 0 ==> summary_from(lines, i) == summary_from(lines, i + 1),
        text::trim(lines[i]).len() > 0 && !text::has_prefix(text::trim(lines[i]), "//!"@)
            ==> summary_from(lines, i).len() == 0,
{
    reveal_strlit("//!");
    scan::law_prefix_is_taken_off("//!"@, rest, text::trim(lines[i]));
}

/// An item gets exactly the examples whose name holds its own.
pub proof fn law_item_gets_its_examples(
    item: ItemModel,
    examples: Seq<ExampleModel>,
    e: ExampleModel,
)
    ensures
        with_examples(item, examples).examples.contains(e) <==> examples.contains(e)
            && text::occurs(e.name, item.name),
        with_examples(item, examples).name == item.name,
        with_examples(item, examples).signature == item.signature,
        with_examples(item, examples).doc == item.doc,
        with_examples(item, examples).params == item.params,
{
    crate::sequences::lemma_filter_counts(
        examples,
        |x: ExampleModel| text::occurs(x.name, item.name),
        e,
    );
}

/// An item is rendered with its heading first, and then with its documentation,
/// parameters, return type and examples, as far as it has them.
pub proof fn law_item_is_rendered_in_order(item: ItemModel)
    ensures
        item.doc.len() == 0 && item.params.len() == 0 && item.returns is None
            && item.examples.len() == 0 ==> rendered_item(item) == "\n## `"@
            + item.kind.spec_label() + " "@ + item.name + "`\n\n```rust\n"@ + item.signature
            + "\n```\n"@,
        item.params.len() == 0 ==> rendered_param_list(item.params).len() == 0,
        item.returns is None ==> rendered_return(item.returns).len() == 0,
        item.returns is Some ==> rendered_return(item.returns) == "\n**Returns**: `"@
            + item.returns->0 + "`\n"@,
        item.params.len() == 1 ==> rendered_param_list(item.params) == "\n**Parameters**\n\n"@ + (
        "- `"@ + item.params[0].name + "`: `"@ + item.params[0].ty + "`\n"@),
{
    let h = rendered_heading(item);
    let e = Seq::<char>::empty();
    assert(h + e + e + e + e =~= h);
    if item.params.len() == 1 {
        assert(item.params.drop_last() =~= Seq::<ParamModel>::empty());
        assert(rendered_params(item.params.drop_last()) =~= e);
        assert(e + "- `"@ =~= "- `"@);
        assert(rendered_params(item.params) == "- `"@ + item.params[0].name + "`: `"@
            + item.params[0].ty + "`\n"@);
    }
}

/// Items are rendered one behind the other, below the heading of their module.
pub proof fn law_items_are_rendered_in_order(
    items: Seq<ItemModel>,
    item: ItemModel,
    module: Seq<char>,
)
    ensures
        rendered_items(Seq::<ItemModel>::empty()).len() == 0,
        rendered_items(items.push(item)) == rendered_items(items) + rendered_item(item),
        rendered(
            (ModuleModel { module, summary: Seq::empty(), items: Seq::empty() }),
        ) == "# Module `"@ + module + "`\n"@,
{
    assert(items.push(item).drop_last() =~= items);
    let h = "# Module `"@ + module + "`\n"@;
    assert(h + Seq::<char>::empty() + Seq::<char>::empty() =~= h);
}

/// The common indentation is that of the least indented line that is not blank; it
/// is nothing for lines that are all blank.
pub proof fn law_common_indent_is_the_least(lines: Seq<Seq<char>>, i: int)
    requires
        0 <= i < lines.len(),
    ensures
        text::trim(lines[i]).len() > 0 ==> common_indent(lines) is Some && common_indent(lines)->0
            <= indent_of(lines[i]),
        common_indent(lines) is Some ==> exists|j: int|
            0 <= j < lines.len() && text::trim(#[trigger] lines[j]).len() > 0 && indent_of(lines[j])
                == common_indent(lines)->0,
    decreases lines.len(),
{
    let init = lines.drop_last();
    if init.len() > 0 {
        if i < init.len() {
            law_common_indent_is_the_least(init, i);
        } else {
            law_common_indent_is_the_least(init, 0);
        }
        if common_indent(init) is Some {
            let j = choose|j: int|
                0 <= j < init.len() && text::trim(#[trigger] init[j]).len() > 0 && indent_of(
                    init[j],
                ) == common_indent(init)->0;
            assert(lines[j] == init[j]);
        }
        if i < init.len() {
            assert(init[i] == lines[i]);
        }
    }
    assert(lines[lines.len() - 1] == lines.last());
}

/// Tests are known by their attribute.
pub proof fn law_tests_by_attribute(rest: Seq<char>, line: Seq<char>)
    ensures
        is_test_attribute("#[test]"@ + rest),
        text::has_prefix(line, "#["@) && text::occurs(line, "::test"@) ==> is_test_attribute(line),
        !text::has_prefix(line, "#["@) ==> !is_test_attribute(line),
{
    text::law_prefix_is_what_comes_first("#[test]"@, rest, line);
    reveal_strlit("#[test]");
    reveal_strlit("#[");
    if text::has_prefix(line, "#[test]"@) {
        let h = line.subrange(0, 7);
        assert(h[0] == line[0] && h[1] == line[1]);
        assert(line.subrange(0, 2) =~= "#["@);
    }
}

/// A line that does not belong to a test is passed over.
pub proof fn law_other_lines_are_passed_over(lines: Seq<Seq<char>>, index: int)
    requires
        0 <= index < lines.len(),
    ensures
        !text::has_prefix(text::trim(lines[index]), "#["@) ==> examples_from(lines, index)
            == examples_from(lines, index + 1),
        examples_from(lines, lines.len() as int).len() == 0,
{
    law_tests_by_attribute(Seq::empty(), text::trim(lines[index]));
}

/// Braces raise and lower the depth of a line, which never falls below nothing.
pub proof fn law_braces_make_depth(line: Seq<char>, i: int, depth: nat)
    requires
        0 <= i < line.len(),
    ensures
        line[i] == '{' ==> brace_depth(line, i, depth) == brace_depth(line, i + 1, depth + 1),
        line[i] == '}' && depth > 0 ==> brace_depth(line, i, depth) == brace_depth(
            line,
            i + 1,
            (depth - 1) as nat,
        ),
        line[i] == '}' && depth == 0 ==> brace_depth(line, i, depth) == brace_depth(
            line,
            i + 1,
            depth,
        ),
        line[i] != '{' && line[i] != '}' ==> brace_depth(line, i, depth) == brace_depth(
            line,
            i + 1,
            depth,
        ),
        brace_depth(line, line.len() as int, depth) == depth,
{
}

/// A body begins behind the line with the first brace and ends before the line in
/// which that brace is closed.
pub proof fn law_body_is_between_its_braces(
    lines: Seq<Seq<char>>,
    i: int,
    depth: nat,
    body: Seq<Seq<char>>,
)
    requires
        0 <= i < lines.len(),
    ensures
        brace_depth(lines[i], 0, depth) == 0 ==> body_from(lines, i, depth, true, body) == (
            body,
            i + 1,
        ),
        brace_depth(lines[i], 0, depth) > 0 ==> body_from(lines, i, depth, true, body)
            == body_from(lines, i + 1, brace_depth(lines[i], 0, depth), true, body.push(lines[i])),
        !lines[i].contains('{') ==> body_from(lines, i, depth, false, body) == body_from(
            lines,
            i + 1,
            brace_depth(lines[i], 0, depth),
            false,
            body,
        ),
        lines[i].contains('{') && brace_depth(lines[i], 0, depth) > 0 ==> body_from(
            lines,
            i,
            depth,
            false,
            body,
        ) == body_from(lines, i + 1, brace_depth(lines[i], 0, depth), true, body),
{
}

/// Dedenting takes the common width off the front of a line; of plain spaces one
/// for each unit of width.
pub proof fn law_dedent_takes_the_width(line: Seq<char>, width: nat)
    requires
        width <= line.len(),
        forall|i: int| 0 <= i < line.len() ==> (line[i] as u32) < 0x80,
    ensures
        outdented(line, width) == line.skip(width as int),
        bytes_in(line) == line.len(),
{
    lemma_plain_bytes(line);
    lemma_plain_fitting(line, 0, width as int);
}

/// Plain characters take one byte each.
proof fn lemma_plain_bytes(line: Seq<char>)
    requires
        forall|i: int| 0 <= i < line.len() ==> (line[i] as u32) < 0x80,
    ensures
        bytes_in(line) == line.len(),
    decreases line.len(),
{
    if line.len() > 0 {
        lemma_plain_bytes(line.drop_last());
    }
}

/// As many plain characters fit as there is room for.
proof fn lemma_plain_fitting(line: Seq<char>, i: int, room: int)
    requires
        0 <= i <= line.len(),
        0 <= room <= line.len() - i,
        forall|j: int| 0 <= j < line.len() ==> (line[j] as u32) < 0x80,
    ensures
        fitting(line, i, room) == i + room,
    decreases line.len() - i,
{
    if room > 0 {
        lemma_plain_fitting(line, i + 1, room - 1);
    }
}

/// Documentation is generated from the module alone where there are no tests, and
/// with the examples of the tests where there are.
pub proof fn law_generated_from_module_and_tests(
    module: Seq<char>,
    source: Seq<char>,
    tests: &str,
    i: int,
)
    ensures
        generated(module, source, None) == rendered(parsed(module, source)),
        generated(module, source, Some(tests)) == rendered(
            attached(parsed(module, source), examples_from(scan::lines(tests@), 0)),
        ),
        attached(parsed(module, source), Seq::empty()).items.len() == parsed(
            module,
            source,
        ).items.len(),
        0 <= i < parsed(module, source).items.len() ==> attached(
            parsed(module, source),
            examples_from(scan::lines(tests@), 0),
        ).items[i] == with_examples(
            parsed(module, source).items[i],
            examples_from(scan::lines(tests@), 0),
        ),
{
}

/// The keywords and labels of the kinds of items.
pub proof fn law_kinds_by_label()
    ensures
        ItemKind::Function.spec_label() == "fn"@ && ItemKind::Function.spec_keyword() == "fn "@,
        ItemKind::Struct.spec_label() == "struct"@ && ItemKind::Struct.spec_keyword()
            == "struct "@,
        ItemKind::Enum.spec_label() == "enum"@ && ItemKind::Enum.spec_keyword() == "enum "@,
        ItemKind::Trait.spec_label() == "trait"@ && ItemKind::Trait.spec_keyword() == "trait "@,
        ItemKind::TypeAlias.spec_label() == "type"@ && ItemKind::TypeAlias.spec_keyword()
            == "type "@,
{
}

/// The name of an item stands behind its keyword.
pub proof fn law_name_stands_behind_the_keyword(header: Seq<char>, kind: ItemKind, n: Seq<char>)
    requires
        name_of(header, kind) == Some(n),
    ensures
        n.len() > 0,
        text::occurs(header, kind.spec_keyword()),
        text::occurs(header, n),
{
    let k = kind.spec_keyword();
    scan::law_cut_is_at_the_first_place(header, k, 0);
    let p = scan::cut(header, k)->0;
    let rest = p.1;
    text::law_part_occurs(p.0, k, rest);
    lemma_name_is_a_prefix(rest, 0);
    let e = scan::name_end(rest, 0);
    assert(header =~= (p.0 + k) + rest.take(e) + rest.skip(e));
    text::law_part_occurs(p.0 + k, rest.take(e), rest.skip(e));
}

/// The end of a leading name lies within the text.
proof fn lemma_name_is_a_prefix(s: Seq<char>, from: int)
    requires
        0 <= from <= s.len(),
    ensures
        from <= scan::name_end(s, from) <= s.len(),
    decreases s.len() - from,
{
    if from < s.len() && (scan::alphanumeric(s[from]) || s[from] == '_') {
        lemma_name_is_a_prefix(s, from + 1);
    }
}

} // verus!
