//! The class file format.
//!
//! ```text
//! ClassFile {
//!     u4             magic;
//!     u2             minor_version;
//!     u2             major_version;
//!     u2             constant_pool_count;
//!     cp_info        constant_pool[constant_pool_count-1];
//!     u2             access_flags;
//!     u2             this_class;
//!     u2             super_class;
//!     u2             interfaces_count;
//!     u2             interfaces[interfaces_count];
//!     u2             fields_count;
//!     field_info     fields[fields_count];
//!     u2             methods_count;
//!     method_info    methods[methods_count];
//!     u2             attributes_count;
//!     attribute_info attributes[attributes_count];
//! }
//! ```
pub mod access_flags;
pub mod attributes;
pub mod bytecode;
pub mod code_attribute;
pub mod constant_pool;
pub mod error;
pub mod fields;
pub mod file_reader;
pub mod interfaces;
pub mod jaustp;
pub mod methods;
pub mod text;

pub use jaustp::jaustp_summary;
pub use jaustp::JavapOptions;

use vstd::prelude::*;
use vstd::string::*;

use access_flags::AccessFlags;
use attributes::attributes::{Attributes, AttributesView};
use constant_pool::{
    optional_index, resolve, resolve_or, valid_index, pool_wf, ConstantPool, InfoView,
};
use error::DecodeError;
use fields::{Fields, FieldsView};
use file_reader::{avail, u16_at, u32_at, FileReader};
use interfaces::{Interfaces, InterfacesView};
use methods::{Methods, MethodsView};
use text::{debug_list, debug_list_string, decimal, push_decimal};

verus! {

broadcast use FileReader::lemma_in_bounds;

/// The number that the first four bytes of a class file spell.
pub const MAGIC: u32 = 0xCAFEBABE;

/// A decoded class file.
pub struct ClassFile {
    pub minor_version: u16,
    pub major_version: u16,
    pub constant_pool: ConstantPool,
    pub access_flags: AccessFlags,
    pub this_class: u16,
    pub super_class: u16,
    pub interfaces: Interfaces,
    pub fields: Fields,
    pub methods: Methods,
    pub attributes: Attributes,
}

/// The model of [`ClassFile`].
pub ghost struct ClassFileView {
    pub minor_version: u16,
    pub major_version: u16,
    pub constant_pool: Seq<InfoView>,
    pub access_flags: u16,
    pub this_class: u16,
    pub super_class: u16,
    pub interfaces: InterfacesView,
    pub fields: FieldsView,
    pub methods: MethodsView,
    pub attributes: AttributesView,
}

impl View for ClassFile {
    type V = ClassFileView;

    open spec fn view(&self) -> ClassFileView {
        ClassFileView {
            minor_version: self.minor_version,
            major_version: self.major_version,
            constant_pool: self.constant_pool@,
            access_flags: self.access_flags@,
            this_class: self.this_class,
            super_class: self.super_class,
            interfaces: self.interfaces@,
            fields: self.fields@,
            methods: self.methods@,
            attributes: self.attributes@,
        }
    }
}

impl ClassFileView {
    /// Whether the class file is sound: the references within the constant
    /// pool are in order, and every index that the class, its fields, its
    /// methods and their attributes hold names an entry of the pool, or is
    /// 0 where that stands for "none".
    pub open spec fn wf(self) -> bool {
        &&& pool_wf(self.constant_pool)
        &&& valid_index(self.constant_pool, self.this_class as int)
        &&& optional_index(self.constant_pool, self.super_class as int)
        &&& self.interfaces.wf(self.constant_pool)
        &&& self.fields.wf(self.constant_pool)
        &&& self.methods.wf(self.constant_pool)
        &&& self.attributes.wf(self.constant_pool)
    }

    /// What the bytes of a class file decode to: the magic number, the two
    /// version numbers, the constant pool, and then the class itself.
    pub open spec fn parse(bytes: Seq<u8>) -> Result<ClassFileView, DecodeError> {
        if !avail(bytes, 0, 4) {
            Err(DecodeError::TruncatedInput)
        } else if u32_at(bytes, 0) != MAGIC {
            Err(DecodeError::MalformedHeader)
        } else if !avail(bytes, 4, 4) {
            Err(DecodeError::TruncatedInput)
        } else {
            match InfoView::parse_pool(bytes, 8) {
                Err(e) => Err(e),
                Ok((pool, next)) => Self::parse_class(
                    bytes,
                    next,
                    u16_at(bytes, 4),
                    u16_at(bytes, 6),
                    pool,
                ),
            }
        }
    }

    /// What follows the constant pool: the flags, the indices of the class
    /// and of its super class, the interfaces, the fields, the methods and
    /// the attributes. What follows the attributes is left unread.
    pub open spec fn parse_class(
        bytes: Seq<u8>,
        pos: int,
        minor_version: u16,
        major_version: u16,
        pool: Seq<InfoView>,
    ) -> Result<ClassFileView, DecodeError> {
        if !avail(bytes, pos, 6) {
            Err(DecodeError::TruncatedInput)
        } else if !valid_index(pool, u16_at(bytes, pos + 2) as int) || !optional_index(
            pool,
            u16_at(bytes, pos + 4) as int,
        ) {
            Err(DecodeError::InvalidIndex)
        } else {
            match Self::parse_members(bytes, pos + 6, pool) {
                Err(e) => Err(e),
                Ok((interfaces, fields, methods, attributes)) => Ok(
                    ClassFileView {
                        minor_version,
                        major_version,
                        constant_pool: pool,
                        access_flags: u16_at(bytes, pos),
                        this_class: u16_at(bytes, pos + 2),
                        super_class: u16_at(bytes, pos + 4),
                        interfaces,
                        fields,
                        methods,
                        attributes,
                    },
                ),
            }
        }
    }

    /// The interfaces, the fields, the methods and the attributes of the
    /// class, one after the other.
    pub open spec fn parse_members(bytes: Seq<u8>, pos: int, pool: Seq<InfoView>) -> Result<
        (InterfacesView, FieldsView, MethodsView, AttributesView),
        DecodeError,
    > {
        match InterfacesView::parse(bytes, pos, pool) {
            Err(e) => Err(e),
            Ok((interfaces, p)) => match FieldsView::parse(bytes, p, pool) {
                Err(e) => Err(e),
                Ok((fields, q)) => match MethodsView::parse(bytes, q, pool) {
                    Err(e) => Err(e),
                    Ok((methods, r)) => match AttributesView::parse(bytes, r, pool) {
                        Err(e) => Err(e),
                        Ok((attributes, _)) => Ok((interfaces, fields, methods, attributes)),
                    },
                },
            },
        }
    }

    /// The dump of everything that was decoded.
    pub open spec fn raw_text(self) -> Seq<char> {
        "minor_version: "@ + decimal(self.minor_version as nat) + "\n"@ + "major_version: "@
            + decimal(self.major_version as nat) + "\n"@ + InfoView::listing(
            self.constant_pool,
            Seq::empty(),
            0,
        ) + "access_flags: "@ + debug_list(access_flags::flag_seq(self.access_flags)) + "\n"@
            + "this_class: "@ + resolve(self.constant_pool, self.this_class as int) + "\n"@
            + "super_class: "@ + resolve_or(self.constant_pool, self.super_class as int, "<none>"@)
            + "\n"@ + self.interfaces.text(self.constant_pool) + self.fields.text(
            self.constant_pool,
        ) + self.methods.text(self.constant_pool) + self.attributes.text(self.constant_pool)
    }
}

/// What decoding promises of its outcome on `bytes`: the model that the
/// format prescribes, or the error that it prescribes.
pub open spec fn decodes(bytes: Seq<u8>, r: Result<ClassFile, DecodeError>) -> bool {
    match ClassFileView::parse(bytes) {
        Ok(v) => r is Ok && r->Ok_0@ == v,
        Err(e) => r is Err && r->Err_0 == e,
    }
}

/// Decoding the same bytes twice gives the same model, field by field, or
/// the same error.
pub proof fn lemma_decoding_is_repeatable(
    bytes: Seq<u8>,
    first: Result<ClassFile, DecodeError>,
    second: Result<ClassFile, DecodeError>,
)
    requires
        decodes(bytes, first),
        decodes(bytes, second),
    ensures
        first is Ok <==> second is Ok,
        first is Ok ==> first->Ok_0@ == second->Ok_0@,
        first is Err ==> first->Err_0 == second->Err_0,
{
}

/// Reads the interfaces, the fields, the methods and the attributes.
#[verifier::rlimit(40)]
fn read_members(file: &mut FileReader, constant_pool: &ConstantPool) -> (r: Result<
    (Interfaces, Fields, Methods, Attributes),
    DecodeError,
>)
    requires
        pool_wf(constant_pool@),
    ensures
        match ClassFileView::parse_members(old(file).bytes(), old(file).pos(), constant_pool@) {
            Ok(v) => {
                &&& r is Ok
                &&& r->Ok_0.0@ == v.0
                &&& r->Ok_0.1@ == v.1
                &&& r->Ok_0.2@ == v.2
                &&& r->Ok_0.3@ == v.3
            },
            Err(e) => r is Err && r->Err_0 == e,
        },
        r is Ok ==> {
            &&& r->Ok_0.0@.wf(constant_pool@)
            &&& r->Ok_0.1@.wf(constant_pool@)
            &&& r->Ok_0.2@.wf(constant_pool@)
            &&& r->Ok_0.3@.wf(constant_pool@)
        },
{
    let interfaces = Interfaces::from(file, constant_pool)?;
    let fields = Fields::from(file, constant_pool)?;
    let methods = Methods::from(file, constant_pool)?;
    let attributes = Attributes::from(file, constant_pool)?;
    Ok((interfaces, fields, methods, attributes))
}

/// Reads what follows the constant pool.
#[verifier::rlimit(40)]
fn read_class(
    file: &mut FileReader,
    minor_version: u16,
    major_version: u16,
    constant_pool: ConstantPool,
) -> (r: Result<ClassFile, DecodeError>)
    requires
        pool_wf(constant_pool@),
    ensures
        match ClassFileView::parse_class(
            old(file).bytes(),
            old(file).pos(),
            minor_version,
            major_version,
            constant_pool@,
        ) {
            Ok(v) => r is Ok && r->Ok_0@ == v,
            Err(e) => r is Err && r->Err_0 == e,
        },
        r is Ok ==> r->Ok_0@.wf(),
{
    file.need(6)?;
    let access_flags = AccessFlags::new(file.read_u2_to_u16()?);
    let this_class = constant_pool.read_index(file)?;
    let super_class = constant_pool.read_optional_index(file)?;

    let (interfaces, fields, methods, attributes) = read_members(file, &constant_pool)?;

    Ok(
        ClassFile {
            minor_version,
            major_version,
            constant_pool,
            access_flags,
            this_class,
            super_class,
            interfaces,
            fields,
            methods,
            attributes,
        },
    )
}

/// Decodes the bytes of a class file.
pub fn read_class_file(bytes: &[u8]) -> (r: Result<ClassFile, DecodeError>)
    ensures
        decodes(bytes@, r),
        r is Ok ==> r->Ok_0@.wf(),
{
    let mut file = FileReader::new(bytes);

    let magic = file.read_u4_to_u32()?;
    if magic != MAGIC {
        return Err(DecodeError::MalformedHeader);
    }
    file.need(4)?;
    let minor_version = file.read_u2_to_u16()?;
    let major_version = file.read_u2_to_u16()?;

    let constant_pool = ConstantPool::from(&mut file)?;

    read_class(&mut file, minor_version, major_version, constant_pool)
}

/// A dump of everything that was decoded.
pub fn raw_string(cf: &ClassFile) -> (s: String)
    requires
        cf@.wf(),
    ensures
        s@ == cf@.raw_text(),
{
    let mut s = String::from_str("minor_version: ");
    push_decimal(&mut s, cf.minor_version as u64);
    s.append("\n");
    s.append("major_version: ");
    push_decimal(&mut s, cf.major_version as u64);
    s.append("\n");
    s.append(cf.constant_pool.to_string().as_str());
    s.append("access_flags: ");
    s.append(debug_list_string(&cf.access_flags.flag_vector()).as_str());
    s.append("\n");
    s.append("this_class: ");
    s.append(cf.constant_pool.get_to_string(cf.this_class).as_str());
    s.append("\n");
    s.append("super_class: ");
    s.append(cf.constant_pool.get_to_string_or(cf.super_class, "<none>").as_str());
    s.append("\n");
    s.append(cf.interfaces.to_string(&cf.constant_pool).as_str());
    s.append(cf.fields.to_string(&cf.constant_pool).as_str());
    s.append(cf.methods.to_string(&cf.constant_pool).as_str());
    s.append(cf.attributes.to_string(&cf.constant_pool).as_str());
    s
}

} // verus!
