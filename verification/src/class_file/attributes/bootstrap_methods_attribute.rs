use vstd::prelude::*;
use vstd::string::*;

use crate::class_file::attributes::attributes::AttStart;
use crate::class_file::constant_pool::{
    index_item, resolve, spec_index, valid_index, valid_indices, pool_wf, ConstantPool, InfoView,
};
use crate::class_file::error::DecodeError;
use crate::class_file::file_reader::{decoded, parse_counted, parse_each, FileReader, Parsed};
use crate::class_file::text::{concat_each, lemma_views_empty, lemma_views_push, views};

verus! {

broadcast use {lemma_views_push, lemma_views_empty};

/// The bootstrap methods that the class's dynamic call sites refer to.
#[derive(Debug)]
pub struct BootstrapMethodsAttribute {
    pub attribute_name_index: u16,
    pub attribute_length: u32,
    pub bootstrap_methods: Vec<BootstrapMethod>,
}

/// One bootstrap method: a method handle and its static arguments, each an
/// index into the constant pool.
#[derive(Debug)]
pub struct BootstrapMethod {
    pub method_ref: u16,
    pub arguments: Vec<u16>,
}

/// The model of [`BootstrapMethod`].
pub ghost struct BootstrapMethodView {
    pub method_ref: u16,
    pub arguments: Seq<u16>,
}

/// The model of [`BootstrapMethodsAttribute`].
pub ghost struct BootstrapMethodsAttributeView {
    pub attribute_name_index: u16,
    pub attribute_length: u32,
    pub bootstrap_methods: Seq<BootstrapMethodView>,
}

impl View for BootstrapMethod {
    type V = BootstrapMethodView;

    open spec fn view(&self) -> BootstrapMethodView {
        BootstrapMethodView { method_ref: self.method_ref, arguments: self.arguments@ }
    }
}

impl View for BootstrapMethodsAttribute {
    type V = BootstrapMethodsAttributeView;

    open spec fn view(&self) -> BootstrapMethodsAttributeView {
        BootstrapMethodsAttributeView {
            attribute_name_index: self.attribute_name_index,
            attribute_length: self.attribute_length,
            bootstrap_methods: views(self.bootstrap_methods@),
        }
    }
}

impl BootstrapMethodView {
    /// Whether every index that this holds names an entry of the pool.
    pub open spec fn wf(self, pool: Seq<InfoView>) -> bool {
        valid_index(pool, self.method_ref as int) && valid_indices(pool, self.arguments)
    }

    /// One bootstrap method: the index of the method handle, a count, then
    /// that many indices of arguments.
    pub open spec fn parse(bytes: Seq<u8>, pos: int, pool: Seq<InfoView>) -> Parsed<
        BootstrapMethodView,
    > {
        match spec_index(bytes, pos, pool) {
            Ok((method_ref, p)) => match parse_counted(index_item(pool), bytes, p) {
                Ok((arguments, next)) => Ok((BootstrapMethodView { method_ref, arguments }, next)),
                Err(e) => Err(e),
            },
            Err(e) => Err(e),
        }
    }

    /// The decoder of one bootstrap method.
    pub open spec fn item(pool: Seq<InfoView>) -> spec_fn(Seq<u8>, int) -> Parsed<
        BootstrapMethodView,
    > {
        |bytes: Seq<u8>, pos: int| Self::parse(bytes, pos, pool)
    }

    /// The part of a listing for one argument.
    pub open spec fn argument_line(pool: Seq<InfoView>) -> spec_fn(u16) -> Seq<char> {
        |index: u16| "\n\t\t- "@ + resolve(pool, index as int) + ", "@
    }

    /// The text that `to_string` gives.
    pub open spec fn text(self, pool: Seq<InfoView>) -> Seq<char> {
        concat_each(
            resolve(pool, self.method_ref as int) + "("@,
            self.arguments,
            0,
            Self::argument_line(pool),
        ) + ")"@
    }

    /// The part of a listing for one bootstrap method.
    pub open spec fn line(pool: Seq<InfoView>) -> spec_fn(BootstrapMethodView) -> Seq<char> {
        |method: BootstrapMethodView| "\n\t- "@ + method.text(pool)
    }
}

impl BootstrapMethodsAttributeView {
    /// The content: a count, then that many bootstrap methods.
    pub open spec fn parse(bytes: Seq<u8>, pos: int, start: AttStart, pool: Seq<InfoView>) -> Parsed<
        BootstrapMethodsAttributeView,
    > {
        match parse_counted(BootstrapMethodView::item(pool), bytes, pos) {
            Ok((bootstrap_methods, next)) => Ok(
                (
                    BootstrapMethodsAttributeView {
                        attribute_name_index: start.attribute_name_index,
                        attribute_length: start.attribute_length,
                        bootstrap_methods,
                    },
                    next,
                ),
            ),
            Err(e) => Err(e),
        }
    }

    /// Whether every index that this holds names an entry of the pool.
    pub open spec fn wf(self, pool: Seq<InfoView>) -> bool {
        &&& valid_index(pool, self.attribute_name_index as int)
        &&& forall|i: int|
            0 <= i < self.bootstrap_methods.len() ==> (#[trigger] self.bootstrap_methods[i]).wf(
                pool,
            )
    }

    /// The text that `to_string` gives.
    pub open spec fn text(self, pool: Seq<InfoView>) -> Seq<char> {
        concat_each(
            "BootstrapMethods:"@,
            self.bootstrap_methods,
            0,
            BootstrapMethodView::line(pool),
        ) + "\n"@
    }
}

impl BootstrapMethod {
    /// Reads one bootstrap method.
    #[verifier::loop_isolation(false)]
    pub fn parse(file: &mut FileReader, cp: &ConstantPool) -> (r: Result<
        BootstrapMethod,
        DecodeError,
    >)
        ensures
            decoded(
                *old(file),
                *final(file),
                r,
                BootstrapMethodView::parse(old(file).bytes(), old(file).pos(), cp@),
            ),
            r is Ok ==> r->Ok_0@.wf(cp@),
    {
        let method_ref = cp.read_index(file)?;
        let ghost start = file.pos();
        let argument_count = file.read_u2_to_u16()?;
        let mut arguments: Vec<u16> = Vec::new();
        let mut i: u16 = 0;
        while i < argument_count
            invariant
                i <= argument_count,
                file.bytes() == old(file).bytes(),
                start <= file.pos() <= file.bytes().len(),
                parse_each(
                    index_item(cp@),
                    file.bytes(),
                    file.pos(),
                    (argument_count - i) as nat,
                    arguments@,
                ) == parse_each(
                    index_item(cp@),
                    old(file).bytes(),
                    start + 2,
                    argument_count as nat,
                    Seq::empty(),
                ),
                valid_indices(cp@, arguments@),
            decreases argument_count - i,
        {
            let argument = cp.read_index(file)?;
            arguments.push(argument);
            i += 1;
        }
        Ok(BootstrapMethod { method_ref, arguments })
    }

    /// The text of this, as a dump shows it.
    #[verifier::loop_isolation(false)]
    pub fn to_string(&self, cp: &ConstantPool) -> (r: String)
        requires
            pool_wf(cp@),
            self@.wf(cp@),
        ensures
            r@ == self@.text(cp@),
    {
        let mut s = cp.get_to_string(self.method_ref);
        s.append("(");
        let mut i: usize = 0;
        while i < self.arguments.len()
            invariant
                i <= self.arguments.len(),
                concat_each(s@, self.arguments@, i as int, BootstrapMethodView::argument_line(cp@))
                    + ")"@ == self@.text(cp@),
            decreases self.arguments.len() - i,
        {
            assert(valid_index(cp@, self.arguments@[i as int] as int));
            let mut line = String::from_str("\n\t\t- ");
            line.append(cp.get_to_string(self.arguments[i]).as_str());
            line.append(", ");
            s.append(line.as_str());
            i += 1;
        }
        s.append(")");
        s
    }
}

impl BootstrapMethodsAttribute {
    /// Reads the content of the attribute.
    #[verifier::loop_isolation(false)]
    pub fn parse(file: &mut FileReader, att_start: &AttStart, cp: &ConstantPool) -> (r: Result<
        BootstrapMethodsAttribute,
        DecodeError,
    >)
        requires
            valid_index(cp@, att_start.attribute_name_index as int),
        ensures
            decoded(
                *old(file),
                *final(file),
                r,
                BootstrapMethodsAttributeView::parse(
                    old(file).bytes(),
                    old(file).pos(),
                    *att_start,
                    cp@,
                ),
            ),
            r is Ok ==> r->Ok_0@.wf(cp@),
    {
        let num_bootstrap_methods = file.read_u2_to_u16()?;
        let mut bootstrap_methods: Vec<BootstrapMethod> = Vec::new();
        let mut i: u16 = 0;
        while i < num_bootstrap_methods
            invariant
                i <= num_bootstrap_methods,
                file.bytes() == old(file).bytes(),
                old(file).pos() <= file.pos() <= file.bytes().len(),
                parse_each(
                    BootstrapMethodView::item(cp@),
                    file.bytes(),
                    file.pos(),
                    (num_bootstrap_methods - i) as nat,
                    views(bootstrap_methods@),
                ) == parse_each(
                    BootstrapMethodView::item(cp@),
                    old(file).bytes(),
                    old(file).pos() + 2,
                    num_bootstrap_methods as nat,
                    Seq::empty(),
                ),
                forall|j: int|
                    0 <= j < bootstrap_methods@.len() ==> (#[trigger] bootstrap_methods@[j])@.wf(
                        cp@,
                    ),
            decreases num_bootstrap_methods - i,
        {
            let method = BootstrapMethod::parse(file, cp)?;
            bootstrap_methods.push(method);
            i += 1;
        }
        Ok(
            BootstrapMethodsAttribute {
                attribute_name_index: att_start.attribute_name_index,
                attribute_length: att_start.attribute_length,
                bootstrap_methods,
            },
        )
    }

    /// The text of this, as a dump shows it.
    #[verifier::loop_isolation(false)]
    pub fn to_string(&self, cp: &ConstantPool) -> (r: String)
        requires
            pool_wf(cp@),
            self@.wf(cp@),
        ensures
            r@ == self@.text(cp@),
    {
        let mut s = String::from_str("BootstrapMethods:");
        let mut i: usize = 0;
        while i < self.bootstrap_methods.len()
            invariant
                i <= self.bootstrap_methods.len(),
                concat_each(
                    s@,
                    self@.bootstrap_methods,
                    i as int,
                    BootstrapMethodView::line(cp@),
                ) + "\n"@ == self@.text(cp@),
            decreases self.bootstrap_methods.len() - i,
        {
            assert(self@.bootstrap_methods[i as int].wf(cp@));
            let mut line = String::from_str("\n\t- ");
            line.append(self.bootstrap_methods[i].to_string(cp).as_str());
            s.append(line.as_str());
            i += 1;
        }
        s.append("\n");
        s
    }
}

} // verus!
