use vstd::prelude::*;
use vstd::string::*;

use crate::class_file::access_flags::{is_set, AccessFlag};
use crate::class_file::attributes::attributes::resolved;
use crate::class_file::constant_pool::{resolve, valid_index, InfoView};
use crate::class_file::fields;
use crate::class_file::fields::{Field, FieldView};
use crate::class_file::jaustp::parse_method_descriptor::{
    describe_type, described, parse_method_descriptor, spec_method_descriptor,
    spec_type_descriptor,
};
use crate::class_file::jaustp::print_code::{code_onto, print_code};
use crate::class_file::methods;
use crate::class_file::methods::{Method, MethodView};
use crate::class_file::text::{
    dotted, dotted_name, join_onto, lemma_views_empty, lemma_views_push, push_dotted, push_joined,
    str_eq, views,
};
use crate::class_file::{ClassFile, ClassFileView};

verus! {

broadcast use {lemma_views_push, lemma_views_empty};

/// What a summary shows.
#[derive(Clone, Copy, Debug)]
pub struct Options {
    /// Whether private members are shown.
    pub private: bool,
    /// Whether the instructions of each method are listed.
    pub code: bool,
}

/// `word` where the condition holds, and nothing where it does not.
pub open spec fn word_if(condition: bool, word: Seq<char>) -> Seq<char> {
    if condition {
        word
    } else {
        ""@
    }
}

/// The names with `.` for each `/`, in order.
pub open spec fn dotted_all(names: Seq<Seq<char>>) -> Seq<Seq<char>> {
    Seq::new(names.len(), |i: int| dotted(names[i]))
}

/// The word for what the class is.
pub open spec fn kind(bits: u16) -> Seq<char> {
    if is_set(bits, AccessFlag::Interface) {
        "interface"@
    } else if is_set(bits, AccessFlag::Enum) {
        "enum"@
    } else {
        "class"@
    }
}

/// `acc`, followed by the modifiers of a class and the word for what it
/// is, with a space between consecutive words. An interface is never
/// called abstract.
pub open spec fn class_modifiers_onto(acc: Seq<char>, bits: u16) -> Seq<char> {
    acc + word_if(is_set(bits, AccessFlag::Public), "public "@) + word_if(
        is_set(bits, AccessFlag::Final),
        "final "@,
    ) + word_if(
        is_set(bits, AccessFlag::Abstract) && !is_set(bits, AccessFlag::Interface),
        "abstract "@,
    ) + kind(bits)
}

/// `acc`, followed by the line that declares the class: the modifiers,
/// the name, the super class unless it is `java.lang.Object` or absent,
/// the interfaces if there are any, and an opening brace.
pub open spec fn class_line_onto(acc: Seq<char>, cf: ClassFileView) -> Seq<char> {
    let pool = cf.constant_pool;
    let named = class_modifiers_onto(acc, cf.access_flags) + " "@ + dotted(
        resolve(pool, cf.this_class as int),
    );
    let extended = if cf.super_class != 0 && resolve(pool, cf.super_class as int)
        != "java/lang/Object"@ {
        named + " extends "@ + dotted(resolve(pool, cf.super_class as int))
    } else {
        named
    };
    let implemented = if cf.interfaces.interfaces.len() > 0 {
        join_onto(
            extended + " implements "@,
            dotted_all(resolved(pool, cf.interfaces.interfaces)),
            ", "@,
            0,
        )
    } else {
        extended
    };
    implemented + " {\n"@
}

/// The word for who may see a field.
pub open spec fn visibility(bits: u16) -> Seq<char> {
    if fields::is_set(bits, fields::AccessFlag::Public) {
        "public "@
    } else if fields::is_set(bits, fields::AccessFlag::Private) {
        "private "@
    } else if fields::is_set(bits, fields::AccessFlag::Protected) {
        "protected "@
    } else {
        ""@
    }
}

/// Whether a summary leaves the field out.
pub open spec fn field_is_hidden(field: FieldView, opts: Options) -> bool {
    fields::is_set(field.access_flags, fields::AccessFlag::Private) && !opts.private
}

/// The line that declares a field: its modifiers, its type and its name.
/// That a field is synthetic or an enum constant is not shown.
pub open spec fn field_line_onto(acc: Seq<char>, pool: Seq<InfoView>, field: FieldView) -> Seq<char> {
    let bits = field.access_flags;
    acc + "  "@ + visibility(bits) + word_if(
        fields::is_set(bits, fields::AccessFlag::Static),
        "static "@,
    ) + word_if(fields::is_set(bits, fields::AccessFlag::Final), "final "@) + word_if(
        fields::is_set(bits, fields::AccessFlag::Volatile),
        "volatile "@,
    ) + word_if(fields::is_set(bits, fields::AccessFlag::Transient), "transient "@) + described(
        spec_type_descriptor(resolve(pool, field.descriptor_index as int), 0).0,
    ) + " "@ + resolve(pool, field.name_index as int) + ";\n"@
}

/// `acc`, followed by the line of the field unless the field is hidden.
pub open spec fn field_onto(
    acc: Seq<char>,
    pool: Seq<InfoView>,
    field: FieldView,
    opts: Options,
) -> Seq<char> {
    if field_is_hidden(field, opts) {
        acc
    } else {
        field_line_onto(acc, pool, field)
    }
}

/// `acc`, followed by the lines of the fields from index `i` on.
pub open spec fn fields_onto(acc: Seq<char>, cf: ClassFileView, opts: Options, i: int) -> Seq<char>
    decreases cf.fields.fields.len() - i,
{
    if 0 <= i < cf.fields.fields.len() {
        fields_onto(field_onto(acc, cf.constant_pool, cf.fields.fields[i], opts), cf, opts, i + 1)
    } else {
        acc
    }
}

/// `acc`, followed by the words of the flags from index `i` on, each with
/// a space after it. The flag for synthetic methods has no word.
pub open spec fn keywords_onto(acc: Seq<char>, flags: Seq<methods::AccessFlag>, i: int) -> Seq<char>
    decreases flags.len() - i,
{
    if 0 <= i < flags.len() {
        keywords_onto(
            if flags[i] == methods::AccessFlag::Synthetic {
                acc
            } else {
                acc + flags[i].keyword() + " "@
            },
            flags,
            i + 1,
        )
    } else {
        acc
    }
}

/// Whether a summary leaves the method out.
pub open spec fn method_is_hidden(method: MethodView, opts: Options) -> bool {
    methods::is_set(method.access_flags, methods::AccessFlag::Private) && !opts.private
}

/// `acc`, followed by the line that declares a method and, where the
/// options ask for it, by the listing of its code and an empty line. The
/// static initializer is a pair of braces; a constructor bears the name of
/// the class and has no return type; the exceptions follow `throws`.
pub open spec fn method_line_onto(
    acc: Seq<char>,
    cf: ClassFileView,
    method: MethodView,
    opts: Options,
) -> Seq<char> {
    let pool = cf.constant_pool;
    let head = keywords_onto(acc + "  "@, methods::flag_seq(method.access_flags), 0);
    let name = resolve(pool, method.name_index as int);
    if name == "<clinit>"@ {
        head + "{};\n"@
    } else {
        let signature = spec_method_descriptor(resolve(pool, method.descriptor_index as int));
        let subject = if name == "<init>"@ {
            head + dotted(resolve(pool, cf.this_class as int))
        } else {
            head + signature.1 + " "@ + name
        };
        let with_args = join_onto(subject + "("@, signature.0, ", "@, 0) + ")"@;
        let exceptions = method.attributes.checked_exceptions(pool, Seq::empty(), 0);
        let with_throws = if exceptions.len() > 0 {
            join_onto(with_args + " throws "@, dotted_all(exceptions), ", "@, 0)
        } else {
            with_args
        };
        let line = with_throws + ";\n"@;
        if opts.code {
            code_onto(line, method) + "\n"@
        } else {
            line
        }
    }
}

/// `acc`, followed by what a summary shows of the method, which is nothing
/// where the method is hidden.
pub open spec fn method_onto(
    acc: Seq<char>,
    cf: ClassFileView,
    method: MethodView,
    opts: Options,
) -> Seq<char> {
    if method_is_hidden(method, opts) {
        acc
    } else {
        method_line_onto(acc, cf, method, opts)
    }
}

/// `acc`, followed by what a summary shows of the methods from index `i`
/// on.
pub open spec fn methods_onto(acc: Seq<char>, cf: ClassFileView, opts: Options, i: int) -> Seq<char>
    decreases cf.methods.methods.len() - i,
{
    if 0 <= i < cf.methods.methods.len() {
        methods_onto(method_onto(acc, cf, cf.methods.methods[i], opts), cf, opts, i + 1)
    } else {
        acc
    }
}

/// The line that names the source file, where the class file names one.
pub open spec fn compiled_from(cf: ClassFileView) -> Seq<char> {
    match cf.attributes.source_file(cf.constant_pool, 0) {
        Some(source) => "Compiled from \""@ + source + "\"\n"@,
        None => Seq::empty(),
    }
}

/// The summary of a class: the source file, the line that declares the
/// class, the fields, the methods, and a closing brace.
pub open spec fn summary(cf: ClassFileView, opts: Options) -> Seq<char> {
    methods_onto(fields_onto(class_line_onto(compiled_from(cf), cf), cf, opts, 0), cf, opts, 0)
        + "}\n"@
}

/// A private field is left out of a summary that does not show private
/// members, and stands in one that shows them with its whole line.
pub proof fn lemma_private_field(acc: Seq<char>, pool: Seq<InfoView>, field: FieldView, opts: Options)
    requires
        fields::is_set(field.access_flags, fields::AccessFlag::Private),
    ensures
        !opts.private ==> field_onto(acc, pool, field, opts) == acc,
        opts.private ==> field_onto(acc, pool, field, opts) == field_line_onto(acc, pool, field),
{
}

/// A private method is left out of a summary that does not show private
/// members, and stands in one that shows them with its whole line.
pub proof fn lemma_private_method(acc: Seq<char>, cf: ClassFileView, method: MethodView, opts: Options)
    requires
        methods::is_set(method.access_flags, methods::AccessFlag::Private),
    ensures
        !opts.private ==> method_onto(acc, cf, method, opts) == acc,
        opts.private ==> method_onto(acc, cf, method, opts) == method_line_onto(
            acc,
            cf,
            method,
            opts,
        ),
{
}

/// The bits without the bit of synthetic methods.
pub open spec fn without_synthetic(bits: u16) -> u16 {
    bits & !0x1000u16
}

/// The bits without the bit of abstract classes.
pub open spec fn without_abstract(bits: u16) -> u16 {
    bits & !0x0400u16
}

proof fn lemma_keywords_skip_synthetic(acc: Seq<char>, flags: Seq<methods::AccessFlag>, i: int)
    requires
        0 <= i <= flags.len(),
    ensures
        keywords_onto(acc, flags.push(methods::AccessFlag::Synthetic), i) == keywords_onto(
            acc,
            flags,
            i,
        ),
    decreases flags.len() - i,
{
    let longer = flags.push(methods::AccessFlag::Synthetic);
    if i < flags.len() {
        assert(longer[i] == flags[i]);
        let next = if flags[i] == methods::AccessFlag::Synthetic {
            acc
        } else {
            acc + flags[i].keyword() + " "@
        };
        lemma_keywords_skip_synthetic(next, flags, i + 1);
    } else {
        assert(longer[i] == methods::AccessFlag::Synthetic);
        assert(keywords_onto(acc, longer, i + 1) == acc);
    }
}

/// The modifiers that a summary shows of a method are the same whether
/// the method is synthetic or not: the word never appears.
pub proof fn lemma_synthetic_is_never_shown(acc: Seq<char>, bits: u16)
    ensures
        keywords_onto(acc, methods::flag_seq(bits), 0) == keywords_onto(
            acc,
            methods::flag_seq(without_synthetic(bits)),
            0,
        ),
{
    let clear = without_synthetic(bits);
    assert(clear & 0x0001 == 0x0001 <==> bits & 0x0001 == 0x0001) by (bit_vector)
        requires
            clear == bits & !0x1000u16,
    ;
    assert(clear & 0x0002 == 0x0002 <==> bits & 0x0002 == 0x0002) by (bit_vector)
        requires
            clear == bits & !0x1000u16,
    ;
    assert(clear & 0x0004 == 0x0004 <==> bits & 0x0004 == 0x0004) by (bit_vector)
        requires
            clear == bits & !0x1000u16,
    ;
    assert(clear & 0x0008 == 0x0008 <==> bits & 0x0008 == 0x0008) by (bit_vector)
        requires
            clear == bits & !0x1000u16,
    ;
    assert(clear & 0x0010 == 0x0010 <==> bits & 0x0010 == 0x0010) by (bit_vector)
        requires
            clear == bits & !0x1000u16,
    ;
    assert(clear & 0x0020 == 0x0020 <==> bits & 0x0020 == 0x0020) by (bit_vector)
        requires
            clear == bits & !0x1000u16,
    ;
    assert(clear & 0x0040 == 0x0040 <==> bits & 0x0040 == 0x0040) by (bit_vector)
        requires
            clear == bits & !0x1000u16,
    ;
    assert(clear & 0x0080 == 0x0080 <==> bits & 0x0080 == 0x0080) by (bit_vector)
        requires
            clear == bits & !0x1000u16,
    ;
    assert(clear & 0x0100 == 0x0100 <==> bits & 0x0100 == 0x0100) by (bit_vector)
        requires
            clear == bits & !0x1000u16,
    ;
    assert(clear & 0x0400 == 0x0400 <==> bits & 0x0400 == 0x0400) by (bit_vector)
        requires
            clear == bits & !0x1000u16,
    ;
    assert(clear & 0x0800 == 0x0800 <==> bits & 0x0800 == 0x0800) by (bit_vector)
        requires
            clear == bits & !0x1000u16,
    ;
    assert(clear & 0x1000 != 0x1000) by (bit_vector)
        requires
            clear == bits & !0x1000u16,
    ;
    let shown = methods::flag_seq(clear);
    if bits & 0x1000 == 0x1000 {
        assert(methods::flag_seq(bits) == shown.push(methods::AccessFlag::Synthetic));
        lemma_keywords_skip_synthetic(acc, shown, 0);
    } else {
        assert(methods::flag_seq(bits) == shown);
    }
}

/// An interface is never called abstract: the modifiers that a summary
/// shows of it are the same whether its abstract bit is set or not.
pub proof fn lemma_interface_is_never_abstract(acc: Seq<char>, bits: u16)
    requires
        is_set(bits, AccessFlag::Interface),
    ensures
        class_modifiers_onto(acc, bits) == class_modifiers_onto(acc, without_abstract(bits)),
        class_modifiers_onto(acc, bits) == acc + word_if(
            is_set(bits, AccessFlag::Public),
            "public "@,
        ) + word_if(is_set(bits, AccessFlag::Final), "final "@) + ""@ + "interface"@,
{
    let clear = without_abstract(bits);
    assert(clear & 0x0001 == 0x0001 <==> bits & 0x0001 == 0x0001) by (bit_vector)
        requires
            clear == bits & !0x0400u16,
    ;
    assert(clear & 0x0010 == 0x0010 <==> bits & 0x0010 == 0x0010) by (bit_vector)
        requires
            clear == bits & !0x0400u16,
    ;
    assert(clear & 0x0200 == 0x0200 <==> bits & 0x0200 == 0x0200) by (bit_vector)
        requires
            clear == bits & !0x0400u16,
    ;
    assert(clear & 0x4000 == 0x4000 <==> bits & 0x4000 == 0x4000) by (bit_vector)
        requires
            clear == bits & !0x0400u16,
    ;
}

/// Rendering the same class with the same options twice gives the same
/// text.
pub proof fn lemma_summary_is_repeatable(
    cf: ClassFileView,
    opts: Options,
    first: Seq<char>,
    second: Seq<char>,
)
    requires
        first == summary(cf, opts),
        second == summary(cf, opts),
    ensures
        first == second,
{
}

fn word(condition: bool, text: &'static str) -> (r: &'static str)
    ensures
        r@ == word_if(condition, text@),
{
    if condition {
        text
    } else {
        ""
    }
}

/// The summary of a class, as a disassembler prints it.
pub fn jaustp_summary(cf: &ClassFile, opts: &Options) -> (out: String)
    requires
        cf@.wf(),
    ensures
        out@ == summary(cf@, *opts),
{
    let source = cf.attributes.get_source_file(&cf.constant_pool);
    let mut out = match source {
        Some(source) => {
            let mut line = String::from_str("Compiled from \"");
            line.append(source.as_str());
            line.append("\"\n");
            line
        },
        None => String::new(),
    };
    add_class_line(cf, &mut out);

    add_fields(cf, &mut out, opts);

    add_methods(cf, &mut out, opts);

    out.append("}\n");

    out
}

fn visibility_word(flags: &fields::AccessFlags) -> (r: &'static str)
    ensures
        r@ == visibility(flags@),
{
    if flags.contains(fields::AccessFlag::Public) {
        "public "
    } else if flags.contains(fields::AccessFlag::Private) {
        "private "
    } else if flags.contains(fields::AccessFlag::Protected) {
        "protected "
    } else {
        ""
    }
}

fn add_field(cf: &ClassFile, field: &Field, out: &mut String, opts: &Options)
    requires
        cf@.wf(),
        field@.wf(cf@.constant_pool),
    ensures
        final(out)@ == field_onto(old(out)@, cf@.constant_pool, field@, *opts),
{
    let flags = &field.access_flags;
    if flags.contains(fields::AccessFlag::Private) && !opts.private {
        return ;
    }
    let field_name = cf.constant_pool.get_to_string(field.name_index);
    let field_descriptor = cf.constant_pool.get_to_string(field.descriptor_index);

    out.append("  ");
    out.append(visibility_word(flags));
    out.append(word(flags.contains(fields::AccessFlag::Static), "static "));
    out.append(word(flags.contains(fields::AccessFlag::Final), "final "));
    out.append(word(flags.contains(fields::AccessFlag::Volatile), "volatile "));
    out.append(word(flags.contains(fields::AccessFlag::Transient), "transient "));

    out.append(describe_type(field_descriptor.as_str()).as_str());

    out.append(" ");
    out.append(field_name.as_str());
    out.append(";\n");
}

/// Appends the lines of the fields that the options show.
#[verifier::loop_isolation(false)]
pub fn add_fields(cf: &ClassFile, out: &mut String, opts: &Options)
    requires
        cf@.wf(),
    ensures
        final(out)@ == fields_onto(old(out)@, cf@, *opts, 0),
{
    let mut i: usize = 0;
    while i < cf.fields.fields.len()
        invariant
            i <= cf.fields.fields.len(),
            fields_onto(out@, cf@, *opts, i as int) == fields_onto(old(out)@, cf@, *opts, 0),
        decreases cf.fields.fields.len() - i,
    {
        assert(cf@.fields.fields[i as int].wf(cf@.constant_pool));
        add_field(cf, &cf.fields.fields[i], out, opts);
        i += 1;
    }
}

#[verifier::loop_isolation(false)]
fn add_keywords(flags: &Vec<methods::AccessFlag>, out: &mut String)
    ensures
        final(out)@ == keywords_onto(old(out)@, flags@, 0),
{
    let mut i: usize = 0;
    while i < flags.len()
        invariant
            i <= flags.len(),
            keywords_onto(out@, flags@, i as int) == keywords_onto(old(out)@, flags@, 0),
        decreases flags.len() - i,
    {
        match flags[i] {
            methods::AccessFlag::Synthetic => {},
            _ => {
                out.append(flags[i].to_str());
                out.append(" ");
            },
        }
        i += 1;
    }
}

/// The names with `.` for each `/`, in order.
#[verifier::loop_isolation(false)]
fn dotted_names(names: &Vec<String>) -> (r: Vec<String>)
    ensures
        views(r@) == dotted_all(views(names@)),
{
    let mut dotted: Vec<String> = Vec::new();
    let mut i: usize = 0;
    while i < names.len()
        invariant
            i <= names.len(),
            views(dotted@) == dotted_all(views(names@)).take(i as int),
        decreases names.len() - i,
    {
        dotted.push(dotted_name(names[i].as_str()));
        assert(views(dotted@) =~= dotted_all(views(names@)).take(i + 1));
        i += 1;
    }
    assert(dotted_all(views(names@)).take(i as int) =~= dotted_all(views(names@)));
    dotted
}

#[verifier::rlimit(40)]
fn add_method(cf: &ClassFile, method: &Method, out: &mut String, opts: &Options)
    requires
        cf@.wf(),
        method@.wf(cf@.constant_pool),
    ensures
        final(out)@ == method_onto(old(out)@, cf@, method@, *opts),
{
    if method.access_flags.contains(methods::AccessFlag::Private) && !opts.private {
        return ;
    }
    let flags = method.access_flags.flag_vector();
    out.append("  ");
    add_keywords(&flags, out);

    let method_name = cf.constant_pool.get_to_string(method.name_index);
    if str_eq(method_name.as_str(), "<clinit>") {
        out.append("{};\n");
        return ;
    }
    let descriptor = cf.constant_pool.get_to_string(method.descriptor_index);
    let signature = parse_method_descriptor(descriptor.as_str(), method_name);

    if str_eq(signature.name.as_str(), "<init>") {
        let class_name = cf.constant_pool.get_to_string(cf.this_class);
        push_dotted(out, class_name.as_str());
    } else {
        out.append(signature.return_type.as_str());
        out.append(" ");
        out.append(signature.name.as_str());
    }

    out.append("(");
    push_joined(out, &signature.args, ", ");
    out.append(")");

    let checked_exceptions = method.attributes.get_checked_exceptions(&cf.constant_pool);
    if checked_exceptions.len() > 0 {
        let exceptions = dotted_names(&checked_exceptions);
        out.append(" throws ");
        push_joined(out, &exceptions, ", ");
    }
    out.append(";\n");
    if opts.code {
        print_code(method, &cf.constant_pool, out);
        out.append("\n");
    }
}

/// Appends the lines of the methods that the options show.
#[verifier::loop_isolation(false)]
pub fn add_methods(cf: &ClassFile, out: &mut String, opts: &Options)
    requires
        cf@.wf(),
    ensures
        final(out)@ == methods_onto(old(out)@, cf@, *opts, 0),
{
    let mut i: usize = 0;
    while i < cf.methods.methods.len()
        invariant
            i <= cf.methods.methods.len(),
            methods_onto(out@, cf@, *opts, i as int) == methods_onto(old(out)@, cf@, *opts, 0),
        decreases cf.methods.methods.len() - i,
    {
        assert(cf@.methods.methods[i as int].wf(cf@.constant_pool));
        add_method(cf, &cf.methods.methods[i], out, opts);
        i += 1;
    }
}

/// The names of the interfaces of the class, with `.` for each `/`.
#[verifier::loop_isolation(false)]
fn interface_names(cf: &ClassFile) -> (r: Vec<String>)
    requires
        cf@.wf(),
    ensures
        views(r@) == dotted_all(resolved(cf@.constant_pool, cf@.interfaces.interfaces)),
{
    let ghost all = dotted_all(resolved(cf@.constant_pool, cf@.interfaces.interfaces));
    let mut names: Vec<String> = Vec::new();
    let mut i: usize = 0;
    while i < cf.interfaces.interfaces.len()
        invariant
            i <= cf.interfaces.interfaces.len(),
            views(names@) == all.take(i as int),
        decreases cf.interfaces.interfaces.len() - i,
    {
        assert(valid_index(cf@.constant_pool, cf@.interfaces.interfaces[i as int] as int));
        let interface_name = cf.constant_pool.get_to_string(cf.interfaces.interfaces[i]);
        names.push(dotted_name(interface_name.as_str()));
        assert(views(names@) =~= all.take(i + 1));
        i += 1;
    }
    assert(all.take(i as int) =~= all);
    names
}

/// Appends the line that declares the class.
#[verifier::rlimit(40)]
pub fn add_class_line(cf: &ClassFile, out: &mut String)
    requires
        cf@.wf(),
    ensures
        final(out)@ == class_line_onto(old(out)@, cf@),
{
    add_class_modifiers(cf, out);

    let class_name = cf.constant_pool.get_to_string(cf.this_class);
    out.append(" ");
    push_dotted(out, class_name.as_str());

    if cf.super_class != 0 {
        let super_class_name = cf.constant_pool.get_to_string(cf.super_class);
        if !str_eq(super_class_name.as_str(), "java/lang/Object") {
            out.append(" extends ");
            push_dotted(out, super_class_name.as_str());
        }
    }
    if cf.interfaces.interfaces.len() > 0 {
        out.append(" implements ");
        let names = interface_names(cf);
        push_joined(out, &names, ", ");
    }
    out.append(" {\n");
}

/// Appends the modifiers of the class and the word for what it is.
pub fn add_class_modifiers(cf: &ClassFile, out: &mut String)
    ensures
        final(out)@ == class_modifiers_onto(old(out)@, cf@.access_flags),
{
    let flags = &cf.access_flags;
    let is_interface = flags.contains(AccessFlag::Interface);
    let kind = if is_interface {
        "interface"
    } else if flags.contains(AccessFlag::Enum) {
        "enum"
    } else {
        "class"
    };
    out.append(word(flags.contains(AccessFlag::Public), "public "));
    out.append(word(flags.contains(AccessFlag::Final), "final "));
    out.append(word(flags.contains(AccessFlag::Abstract) && !is_interface, "abstract "));
    out.append(kind);
}

} // verus!
