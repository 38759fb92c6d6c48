//! A scoped text writer that tracks indentation.
//!
//! All scopes of one artifact append to one sink, a `String` that the caller
//! owns and hands to every call. A scope value holds only the indentation of
//! its body. Opening a scope writes its header and returns the scope one level
//! deeper; `close` consumes the scope and writes the closing brace one level
//! up, followed by an empty line.

use vstd::prelude::*;
use vstd::string::*;
use crate::text::{push_spaces, spaces};

verus! {

/// The width of one level of indentation.
pub const INDENT: usize = 4;

/// `line` behind `indent` spaces.
pub open spec fn put_text(indent: nat, put: Seq<char>) -> Seq<char> {
    spaces(indent) + put
}

/// `line` behind `indent` spaces, ended by a line feed.
pub open spec fn line_text(indent: nat, line: Seq<char>) -> Seq<char> {
    spaces(indent) + line + seq!['\n']
}

/// What closing a scope whose body stands at `indent` writes.
pub open spec fn close_text(indent: nat) -> Seq<char> {
    line_text((indent - INDENT) as nat, "}\n"@)
}

/// What closing a block with the given suffix writes.
pub open spec fn block_close_text(indent: nat, suffix: BlockSuffix) -> Seq<char> {
    line_text((indent - INDENT) as nat, "}"@ + suffix.text() + "\n"@)
}

/// The indentation at which a scope writes.
#[derive(Clone, Copy, Debug)]
pub struct Writer {
    pub indent: usize,
}

impl Writer {
    /// A writer at the left margin.
    pub fn new() -> (writer: Writer)
        ensures
            writer.indent == 0,
    {
        Writer { indent: 0 }
    }

    /// The writer one level deeper; `self` keeps its own level.
    pub fn nest(&self) -> (nested: Writer)
        requires
            self.indent + INDENT <= usize::MAX,
        ensures
            nested.indent == self.indent + INDENT,
    {
        Writer { indent: self.indent + INDENT }
    }

    /// Moves this writer one level deeper.
    pub fn indent(&mut self)
        requires
            old(self).indent + INDENT <= usize::MAX,
        ensures
            final(self).indent == old(self).indent + INDENT,
    {
        self.indent = self.indent + INDENT;
    }

    /// Moves this writer one level up.
    pub fn undent(&mut self)
        requires
            old(self).indent >= INDENT,
        ensures
            final(self).indent == old(self).indent - INDENT,
    {
        self.indent = self.indent - INDENT;
    }

    /// Appends the indentation, `line` and a line feed.
    pub fn line(&self, sink: &mut String, line: &str)
        ensures
            final(sink)@ == old(sink)@ + line_text(self.indent as nat, line@),
    {
        push_spaces(sink, self.indent);
        sink.append(line);
        sink.push('\n');
        assert(final(sink)@ =~= old(sink)@ + line_text(self.indent as nat, line@));
    }

    /// Appends the indentation and `put`, without a line feed.
    pub fn put(&self, sink: &mut String, put: &str)
        ensures
            final(sink)@ == old(sink)@ + put_text(self.indent as nat, put@),
    {
        push_spaces(sink, self.indent);
        sink.append(put);
        assert(final(sink)@ =~= old(sink)@ + put_text(self.indent as nat, put@));
    }

    /// Appends `raw` as it is.
    pub fn raw(&self, sink: &mut String, raw: &str)
        ensures
            final(sink)@ == old(sink)@ + raw@,
    {
        sink.append(raw);
    }
}

impl Default for Writer {
    fn default() -> (writer: Writer)
        ensures
            writer.indent == 0,
    {
        Writer { indent: 0 }
    }
}

/// Whether an item is exported.
#[derive(Clone, Copy, Debug, PartialEq, Eq, Structural)]
pub enum Visibility {
    Private,
    Public,
}

impl Visibility {
    /// The keyword in front of the item, with its trailing space.
    pub open spec fn text(self) -> Seq<char> {
        match self {
            Visibility::Private => Seq::empty(),
            Visibility::Public => "pub "@,
        }
    }

    pub fn as_str(&self) -> (s: &'static str)
        ensures
            s@ == self.text(),
    {
        match self {
            Visibility::Private => {
                proof {
                    reveal_strlit("");
                }
                assert(""@ =~= Seq::<char>::empty());
                ""
            },
            Visibility::Public => "pub ",
        }
    }
}

impl Default for Visibility {
    fn default() -> (vis: Visibility)
        ensures
            vis == Visibility::Private,
    {
        Visibility::Private
    }
}

/// The empty text.
#[derive(Clone, Copy, Debug)]
pub struct Nil;

impl Nil {
    pub fn as_str(&self) -> (s: &'static str)
        ensures
            s@ == Seq::<char>::empty(),
    {
        proof {
            reveal_strlit("");
        }
        assert(""@ =~= Seq::<char>::empty());
        ""
    }
}

/// What follows the closing brace of a block.
#[derive(Clone, Copy, Debug, PartialEq, Eq, Structural)]
pub enum BlockSuffix {
    Nothing,
    Semicolon,
}

impl BlockSuffix {
    pub open spec fn text(self) -> Seq<char> {
        match self {
            BlockSuffix::Nothing => Seq::empty(),
            BlockSuffix::Semicolon => ";"@,
        }
    }

    pub fn as_str(&self) -> (s: &'static str)
        ensures
            s@ == self.text(),
    {
        match self {
            BlockSuffix::Nothing => {
                proof {
                    reveal_strlit("");
                }
                assert(""@ =~= Seq::<char>::empty());
                ""
            },
            BlockSuffix::Semicolon => ";",
        }
    }
}

/// One entry of a parameter list.
#[derive(Debug)]
pub enum Arg {
    Receiver(String),
    NameType(String, String),
}

/// One entry of a parameter list, its texts as characters.
pub enum ArgView {
    Receiver(Seq<char>),
    NameType(Seq<char>, Seq<char>),
}

impl ArgView {
    /// The entry as it stands in a parameter list: every entry, the last one
    /// too, is followed by a comma and a space.
    pub open spec fn text(self) -> Seq<char> {
        match self {
            ArgView::Receiver(receiver) => receiver + ", "@,
            ArgView::NameType(name, typ) => name + ": "@ + typ + ", "@,
        }
    }
}

impl View for Arg {
    type V = ArgView;

    open spec fn view(&self) -> ArgView {
        match self {
            Arg::Receiver(receiver) => ArgView::Receiver(receiver@),
            Arg::NameType(name, typ) => ArgView::NameType(name@, typ@),
        }
    }
}

impl Arg {
    pub fn receiver(receiver: &str) -> (arg: Arg)
        ensures
            arg@ == ArgView::Receiver(receiver@),
    {
        Arg::Receiver(String::from_str(receiver))
    }

    pub fn name_type(name: &str, typ: &str) -> (arg: Arg)
        ensures
            arg@ == ArgView::NameType(name@, typ@),
    {
        Arg::NameType(String::from_str(name), String::from_str(typ))
    }
}

/// The entries of a parameter list, their texts as characters.
pub open spec fn arg_views(args: Seq<Arg>) -> Seq<ArgView> {
    Seq::new(args.len(), |i: int| args[i]@)
}

/// The entries of a parameter list one after the other.
pub open spec fn args_text(args: Seq<ArgView>) -> Seq<char>
    decreases args.len(),
{
    if args.len() == 0 {
        Seq::empty()
    } else {
        args_text(args.drop_last()) + args.last().text()
    }
}

/// A parameter list of one and of two entries, written out.
pub proof fn lemma_args_text(a: ArgView, b: ArgView)
    ensures
        args_text(Seq::empty()) == Seq::<char>::empty(),
        args_text(seq![a]) == a.text(),
        args_text(seq![a, b]) == a.text() + b.text(),
{
    assert(args_text(Seq::<ArgView>::empty()) =~= Seq::<char>::empty());
    assert(seq![a].drop_last() =~= Seq::<ArgView>::empty());
    assert(args_text(seq![a]) =~= a.text());
    assert(seq![a, b].drop_last() =~= seq![a]);
}

/// The opening of a function: qualifiers, name and the opening bracket.
pub open spec fn function_header_text(qualifiers: Seq<char>, name: Seq<char>) -> Seq<char> {
    qualifiers + "fn "@ + name + "("@
}

/// The whole first line of a function without a return type.
pub open spec fn function_text(
    indent: nat,
    qualifiers: Seq<char>,
    name: Seq<char>,
    args: Seq<ArgView>,
) -> Seq<char> {
    put_text(indent, function_header_text(qualifiers, name)) + args_text(args) + ") {\n"@
}

/// The whole first line of a function with a return type.
pub open spec fn function_ret_text(
    indent: nat,
    qualifiers: Seq<char>,
    name: Seq<char>,
    args: Seq<ArgView>,
    ret: Seq<char>,
) -> Seq<char> {
    put_text(indent, function_header_text(qualifiers, name)) + args_text(args) + ") -> "@ + ret
        + " {\n"@
}

/// A scope that lines can be written into.
pub trait WriterWrapper: Sized {
    /// The indentation of the scope's body.
    spec fn level(&self) -> nat;

    fn writer(&self) -> (writer: Writer)
        ensures
            writer.indent == self.level(),
    ;

    /// Writes one indented line.
    fn line(&self, sink: &mut String, line: &str)
        ensures
            final(sink)@ == old(sink)@ + line_text(self.level(), line@),
    {
        let writer = self.writer();
        writer.line(sink, line);
    }

    /// Writes the indentation and `put`, and stays on the line.
    fn put(&self, sink: &mut String, put: &str)
        ensures
            final(sink)@ == old(sink)@ + put_text(self.level(), put@),
    {
        let writer = self.writer();
        writer.put(sink, put);
    }

    /// Writes `raw` as it is.
    fn raw(&self, sink: &mut String, raw: &str)
        ensures
            final(sink)@ == old(sink)@ + raw@,
    {
        let writer = self.writer();
        writer.raw(sink, raw);
    }
}

/// A scope that functions can be declared in.
pub trait GenFunction: WriterWrapper {
    /// Opens a function without parameters.
    fn function(&self, sink: &mut String, qualifiers: &str, name: &str) -> (function: Function)
        requires
            self.level() + INDENT <= usize::MAX,
        ensures
            final(sink)@ == old(sink)@ + function_text(
                self.level(),
                qualifiers@,
                name@,
                Seq::empty(),
            ),
            function.writer.indent == self.level() + INDENT,
    {
        let args: Vec<Arg> = Vec::new();
        assert(arg_views(args@) =~= Seq::<ArgView>::empty());
        self.function_args(sink, qualifiers, name, &args)
    }

    fn write_function_header(&self, sink: &mut String, qualifiers: &str, name: &str)
        ensures
            final(sink)@ == old(sink)@ + put_text(
                self.level(),
                function_header_text(qualifiers@, name@),
            ),
    {
        let writer = self.writer();
        push_spaces(sink, writer.indent);
        sink.append(qualifiers);
        sink.append("fn ");
        sink.append(name);
        sink.append("(");
        assert(final(sink)@ =~= old(sink)@ + put_text(
            self.level(),
            function_header_text(qualifiers@, name@),
        ));
    }

    fn write_function_args(&self, sink: &mut String, args: &Vec<Arg>)
        ensures
            final(sink)@ == old(sink)@ + args_text(arg_views(args@)),
    {
        let ghost views = arg_views(args@);
        let mut i: usize = 0;
        assert(views.subrange(0, 0) =~= Seq::<ArgView>::empty());
        assert(sink@ =~= old(sink)@ + args_text(views.subrange(0, 0)));
        while i < args.len()
            invariant
                i <= args.len(),
                views == arg_views(args@),
                sink@ == old(sink)@ + args_text(views.subrange(0, i as int)),
            decreases args.len() - i,
        {
            let ghost before = sink@;
            match &args[i] {
                Arg::Receiver(receiver) => {
                    sink.append(receiver.as_str());
                    sink.append(", ");
                },
                Arg::NameType(name, typ) => {
                    sink.append(name.as_str());
                    sink.append(": ");
                    sink.append(typ.as_str());
                    sink.append(", ");
                },
            }
            assert(sink@ =~= before + views[i as int].text());
            i = i + 1;
            assert(views.subrange(0, i as int).drop_last() =~= views.subrange(0, i - 1));
            assert(sink@ =~= old(sink)@ + args_text(views.subrange(0, i as int)));
        }
        assert(views.subrange(0, args.len() as int) =~= views);
    }

    /// Opens a function with the given parameters and no return type.
    fn function_args(&self, sink: &mut String, qualifiers: &str, name: &str, args: &Vec<Arg>) -> (function: Function)
        requires
            self.level() + INDENT <= usize::MAX,
        ensures
            final(sink)@ == old(sink)@ + function_text(
                self.level(),
                qualifiers@,
                name@,
                arg_views(args@),
            ),
            function.writer.indent == self.level() + INDENT,
    {
        self.write_function_header(sink, qualifiers, name);
        self.write_function_args(sink, args);
        sink.append(") {\n");
        assert(final(sink)@ =~= old(sink)@ + function_text(
            self.level(),
            qualifiers@,
            name@,
            arg_views(args@),
        ));
        Function { writer: self.writer().nest() }
    }

    /// Opens a function with the given parameters and return type.
    fn function_args_ret(
        &self,
        sink: &mut String,
        qualifiers: &str,
        name: &str,
        args: &Vec<Arg>,
        ret: &str,
    ) -> (function: Function)
        requires
            self.level() + INDENT <= usize::MAX,
        ensures
            final(sink)@ == old(sink)@ + function_ret_text(
                self.level(),
                qualifiers@,
                name@,
                arg_views(args@),
                ret@,
            ),
            function.writer.indent == self.level() + INDENT,
    {
        self.write_function_header(sink, qualifiers, name);
        self.write_function_args(sink, args);
        sink.append(") -> ");
        sink.append(ret);
        sink.append(" {\n");
        assert(final(sink)@ =~= old(sink)@ + function_ret_text(
            self.level(),
            qualifiers@,
            name@,
            arg_views(args@),
            ret@,
        ));
        Function { writer: self.writer().nest() }
    }
}

/// A scope that type definitions and impl blocks can be declared in.
pub trait Gen: WriterWrapper {
    /// Opens a struct definition.
    fn structure(&self, sink: &mut String, vis: Visibility, name: &str) -> (structure: Structure)
        requires
            self.level() + INDENT <= usize::MAX,
        ensures
            final(sink)@ == old(sink)@ + line_text(
                self.level(),
                vis.text() + "struct "@ + name@ + " {"@,
            ),
            structure.writer.indent == self.level() + INDENT,
    {
        let writer = self.writer();
        push_spaces(sink, writer.indent);
        sink.append(vis.as_str());
        sink.append("struct ");
        sink.append(name);
        sink.append(" {");
        sink.push('\n');
        assert(final(sink)@ =~= old(sink)@ + line_text(
            self.level(),
            vis.text() + "struct "@ + name@ + " {"@,
        ));
        Structure { writer: writer.nest() }
    }

    /// Opens an enum definition.
    fn enumeration(&self, sink: &mut String, vis: Visibility, name: &str) -> (enumeration: Enumeration)
        requires
            self.level() + INDENT <= usize::MAX,
        ensures
            final(sink)@ == old(sink)@ + line_text(
                self.level(),
                vis.text() + "enum "@ + name@ + " {"@,
            ),
            enumeration.writer.indent == self.level() + INDENT,
    {
        let writer = self.writer();
        push_spaces(sink, writer.indent);
        sink.append(vis.as_str());
        sink.append("enum ");
        sink.append(name);
        sink.append(" {");
        sink.push('\n');
        assert(final(sink)@ =~= old(sink)@ + line_text(
            self.level(),
            vis.text() + "enum "@ + name@ + " {"@,
        ));
        Enumeration { writer: writer.nest() }
    }

    /// Opens an inherent impl block.
    fn imp(&self, sink: &mut String, target: &str) -> (imp: Impl)
        requires
            self.level() + INDENT <= usize::MAX,
        ensures
            final(sink)@ == old(sink)@ + line_text(self.level(), "impl "@ + target@ + " {"@),
            imp.writer.indent == self.level() + INDENT,
    {
        let writer = self.writer();
        push_spaces(sink, writer.indent);
        sink.append("impl ");
        sink.append(target);
        sink.append(" {");
        sink.push('\n');
        assert(final(sink)@ =~= old(sink)@ + line_text(
            self.level(),
            "impl "@ + target@ + " {"@,
        ));
        Impl { writer: writer.nest() }
    }

    /// Opens the impl block of a trait.
    fn imp_trait(&self, sink: &mut String, name: &str, target: &str) -> (imp: Impl)
        requires
            self.level() + INDENT <= usize::MAX,
        ensures
            final(sink)@ == old(sink)@ + line_text(
                self.level(),
                "impl "@ + name@ + " for "@ + target@ + " {"@,
            ),
            imp.writer.indent == self.level() + INDENT,
    {
        let writer = self.writer();
        push_spaces(sink, writer.indent);
        sink.append("impl ");
        sink.append(name);
        sink.append(" for ");
        sink.append(target);
        sink.append(" {");
        sink.push('\n');
        assert(final(sink)@ =~= old(sink)@ + line_text(
            self.level(),
            "impl "@ + name@ + " for "@ + target@ + " {"@,
        ));
        Impl { writer: writer.nest() }
    }

    /// Opens a braced block behind `header`.
    fn block(&self, sink: &mut String, header: &str, suffix: BlockSuffix) -> (block: Block)
        requires
            self.level() + INDENT <= usize::MAX,
        ensures
            final(sink)@ == old(sink)@ + line_text(self.level(), header@ + "{"@),
            block.writer.indent == self.level() + INDENT,
            block.suffix == suffix,
    {
        let writer = self.writer();
        push_spaces(sink, writer.indent);
        sink.append(header);
        sink.append("{");
        sink.push('\n');
        assert(final(sink)@ =~= old(sink)@ + line_text(self.level(), header@ + "{"@));
        Block { writer: writer.nest(), suffix }
    }
}

/// Writes the closing brace of a scope whose body stands at `writer`.
fn close_scope(writer: Writer, sink: &mut String)
    requires
        writer.indent >= INDENT,
    ensures
        final(sink)@ == old(sink)@ + close_text(writer.indent as nat),
{
    let mut writer = writer;
    writer.undent();
    writer.line(sink, "}\n");
}

/// The outermost scope of an artifact.
#[derive(Debug)]
pub struct Scope {
    pub writer: Writer,
}

impl Scope {
    pub fn new(writer: Writer) -> (scope: Scope)
        ensures
            scope.writer == writer,
    {
        Scope { writer }
    }
}

/// The body of a struct definition.
#[derive(Debug)]
pub struct Structure {
    pub writer: Writer,
}

impl Structure {
    /// Writes one field.
    pub fn field(&self, sink: &mut String, name: &str, typ: &str)
        ensures
            final(sink)@ == old(sink)@ + line_text(
                self.writer.indent as nat,
                name@ + ": "@ + typ@ + ","@,
            ),
    {
        push_spaces(sink, self.writer.indent);
        sink.append(name);
        sink.append(": ");
        sink.append(typ);
        sink.append(",");
        sink.push('\n');
        assert(final(sink)@ =~= old(sink)@ + line_text(
            self.writer.indent as nat,
            name@ + ": "@ + typ@ + ","@,
        ));
    }

    /// Ends the definition.
    pub fn close(self, sink: &mut String)
        requires
            self.writer.indent >= INDENT,
        ensures
            final(sink)@ == old(sink)@ + close_text(self.writer.indent as nat),
    {
        close_scope(self.writer, sink);
    }
}

/// The body of an enum definition.
#[derive(Debug)]
pub struct Enumeration {
    pub writer: Writer,
}

impl Enumeration {
    /// Writes one variant.
    pub fn variant(&self, sink: &mut String, variant: &str)
        ensures
            final(sink)@ == old(sink)@ + line_text(self.writer.indent as nat, variant@ + ","@),
    {
        push_spaces(sink, self.writer.indent);
        sink.append(variant);
        sink.append(",");
        sink.push('\n');
        assert(final(sink)@ =~= old(sink)@ + line_text(
            self.writer.indent as nat,
            variant@ + ","@,
        ));
    }

    /// Ends the definition.
    pub fn close(self, sink: &mut String)
        requires
            self.writer.indent >= INDENT,
        ensures
            final(sink)@ == old(sink)@ + close_text(self.writer.indent as nat),
    {
        close_scope(self.writer, sink);
    }
}

/// The body of an impl block.
#[derive(Debug)]
pub struct Impl {
    pub writer: Writer,
}

impl Impl {
    /// Ends the block.
    pub fn close(self, sink: &mut String)
        requires
            self.writer.indent >= INDENT,
        ensures
            final(sink)@ == old(sink)@ + close_text(self.writer.indent as nat),
    {
        close_scope(self.writer, sink);
    }
}

/// The body of a function.
#[derive(Debug)]
pub struct Function {
    pub writer: Writer,
}

impl Function {
    /// Opens a conditional block behind the condition `condition`.
    pub fn if_block(&self, sink: &mut String, condition: &str) -> (block: IfBlock)
        requires
            self.writer.indent + INDENT <= usize::MAX,
        ensures
            final(sink)@ == old(sink)@ + line_text(self.writer.indent as nat, condition@ + " {"@),
            block.writer.indent == self.writer.indent + INDENT,
    {
        push_spaces(sink, self.writer.indent);
        sink.append(condition);
        sink.append(" {");
        sink.push('\n');
        assert(final(sink)@ =~= old(sink)@ + line_text(
            self.writer.indent as nat,
            condition@ + " {"@,
        ));
        IfBlock { writer: self.writer.nest() }
    }

    /// Ends the function.
    pub fn close(self, sink: &mut String)
        requires
            self.writer.indent >= INDENT,
        ensures
            final(sink)@ == old(sink)@ + close_text(self.writer.indent as nat),
    {
        close_scope(self.writer, sink);
    }
}

/// The body of a conditional block.
#[derive(Debug)]
pub struct IfBlock {
    pub writer: Writer,
}

impl IfBlock {
    /// Ends the current branch and opens the next one behind `keyword`; the
    /// body keeps its indentation.
    pub fn else_block(&self, sink: &mut String, keyword: &str)
        requires
            self.writer.indent >= INDENT,
        ensures
            final(sink)@ == old(sink)@ + line_text(
                (self.writer.indent - INDENT) as nat,
                "} "@ + keyword@ + " {"@,
            ),
    {
        let mut writer = self.writer;
        writer.undent();
        push_spaces(sink, writer.indent);
        sink.append("} ");
        sink.append(keyword);
        sink.append(" {");
        sink.push('\n');
        assert(final(sink)@ =~= old(sink)@ + line_text(
            (self.writer.indent - INDENT) as nat,
            "} "@ + keyword@ + " {"@,
        ));
    }

    /// Ends the block.
    pub fn close(self, sink: &mut String)
        requires
            self.writer.indent >= INDENT,
        ensures
            final(sink)@ == old(sink)@ + close_text(self.writer.indent as nat),
    {
        close_scope(self.writer, sink);
    }
}

/// The body of a braced block.
#[derive(Debug)]
pub struct Block {
    pub writer: Writer,
    pub suffix: BlockSuffix,
}

impl Block {
    /// Ends the block: the closing brace, then the suffix.
    pub fn close(self, sink: &mut String)
        requires
            self.writer.indent >= INDENT,
        ensures
            final(sink)@ == old(sink)@ + block_close_text(self.writer.indent as nat, self.suffix),
    {
        let mut writer = self.writer;
        writer.undent();
        push_spaces(sink, writer.indent);
        sink.append("}");
        sink.append(self.suffix.as_str());
        sink.append("\n");
        sink.push('\n');
        assert(final(sink)@ =~= old(sink)@ + block_close_text(
            self.writer.indent as nat,
            self.suffix,
        ));
    }
}

impl WriterWrapper for Scope {
    open spec fn level(&self) -> nat {
        self.writer.indent as nat
    }

    fn writer(&self) -> (writer: Writer) {
        self.writer
    }
}

impl WriterWrapper for Structure {
    open spec fn level(&self) -> nat {
        self.writer.indent as nat
    }

    fn writer(&self) -> (writer: Writer) {
        self.writer
    }
}

impl WriterWrapper for Enumeration {
    open spec fn level(&self) -> nat {
        self.writer.indent as nat
    }

    fn writer(&self) -> (writer: Writer) {
        self.writer
    }
}

impl WriterWrapper for Impl {
    open spec fn level(&self) -> nat {
        self.writer.indent as nat
    }

    fn writer(&self) -> (writer: Writer) {
        self.writer
    }
}

impl WriterWrapper for Function {
    open spec fn level(&self) -> nat {
        self.writer.indent as nat
    }

    fn writer(&self) -> (writer: Writer) {
        self.writer
    }
}

impl WriterWrapper for IfBlock {
    open spec fn level(&self) -> nat {
        self.writer.indent as nat
    }

    fn writer(&self) -> (writer: Writer) {
        self.writer
    }
}

impl WriterWrapper for Block {
    open spec fn level(&self) -> nat {
        self.writer.indent as nat
    }

    fn writer(&self) -> (writer: Writer) {
        self.writer
    }
}

impl Gen for Scope {}

impl Gen for Function {}

impl Gen for IfBlock {}

impl GenFunction for Scope {}

impl GenFunction for Function {}

impl GenFunction for IfBlock {}

impl GenFunction for Impl {}

} // verus!
