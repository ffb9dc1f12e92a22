pub mod attributes;
pub mod bootstrap_methods_attribute;
pub mod deprecated_attribute;
pub mod exceptions_attribute;
pub mod generic_attribute;
pub mod inner_classes_attribute;
pub mod line_number_table_attribute;
pub mod method_parameters_attribute;
pub mod record_attribute;
pub mod runtime_visible_annotations_attribute;
pub mod signature_attribute;
pub mod source_file_attribute;
pub mod stack_map_table_attribute;

pub use attributes::AttStart;
pub use attributes::Attribute;
pub use attributes::Attributes;
pub use bootstrap_methods_attribute::BootstrapMethodsAttribute;
pub use deprecated_attribute::DeprecatedAttribute;
pub use exceptions_attribute::ExceptionsAttribute;
pub use generic_attribute::GenericAttribute;
pub use inner_classes_attribute::InnerClassesAttribute;
pub use line_number_table_attribute::LineNumberTableAttribute;
pub use method_parameters_attribute::MethodParametersAttribute;
pub use record_attribute::RecordAttribute;
pub use runtime_visible_annotations_attribute::RuntimeVisibleAnnotationsAttribute;
pub use signature_attribute::SignatureAttribute;
pub use source_file_attribute::SourceFileAttribute;
pub use stack_map_table_attribute::StackMapTableAttribute;
