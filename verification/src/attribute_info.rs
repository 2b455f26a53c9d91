//! The attribute table entries of classes, fields, methods and code, and
//! the record components that hold attributes of their own.
use crate::attributes::{
    annotation_bytes, annotation_view, annotation_views, element_value_bytes, element_value_view, ElementValue, SpecElementValue, annotations_bytes, bootstrap_bytes,
    emit_all, emit_annotations, encoded_all, frame_bytes, parameter_annotation_bytes,
    type_annotation_bytes, Annotation, BootstrapMethodEntry, Encode, ExceptionTableEntry,
    ExportsEntry, InnerClassEntry, LineNumberEntry, LocalVariableTableEntry,
    LocalVariableTypeTableEntry, OpensEntry, Parameter, ParameterAnnotation, ProvidesEntry,
    RequiresEntry, SpecAnnotation, SpecBootstrapMethodEntry, SpecParameterAnnotation,
    SpecStackMapFrame, SpecTypeAnnotation, StackMapFrame, TypeAnnotation,
};
use crate::bytes::{concat_map, put_bytes, put_u16, write_vec_u16_as_bytes, put_u32, put_u8, u16_bytes, u16s_bytes, u32_bytes};
use vstd::prelude::*;
use vstd::utf8::encode_utf8;

verus! {
/// Concatenating the encodings of the abstract values of a sequence is
/// concatenating the encodings of its elements.
pub proof fn lemma_concat_map_views<A, B>(
    s: Seq<A>,
    g: spec_fn(A) -> B,
    f: spec_fn(B) -> Seq<u8>,
    h: spec_fn(A) -> Seq<u8>,
)
    requires
        forall|a: A| #[trigger] h(a) == f(g(a)),
    ensures
        concat_map(s.map_values(g), f) == concat_map(s, h),
    decreases s.len(),
{
    if s.len() > 0 {
        lemma_concat_map_views(s.drop_last(), g, f, h);
        assert(s.map_values(g).drop_last() =~= s.drop_last().map_values(g));
        assert(h(s.last()) == f(g(s.last())));
    }
}

/// ```javadoc
/// record_component_info { u2 name_index; u2 descriptor_index; u2 attributes_count; attribute_info attributes[attributes_count]; }
/// ```
#[derive(Debug)]
pub struct RecordComponentInfo {
    pub name_index: u16,
    pub descriptor_index: u16,
    pub attributes_count: u16,
    pub attributes: Vec<Attribute>,
}

/// The abstract value of a record component.
pub struct SpecRecordComponentInfo {
    pub name_index: u16,
    pub descriptor_index: u16,
    pub attributes_count: u16,
    pub attributes: Seq<SpecAttribute>,
}

/// The abstract value of a record component.
pub open spec fn component_view(c: &RecordComponentInfo) -> SpecRecordComponentInfo
    decreases c,
{
    SpecRecordComponentInfo {
        name_index: c.name_index,
        descriptor_index: c.descriptor_index,
        attributes_count: c.attributes_count,
        attributes: Seq::new(
            c.attributes@.len(),
            |j: int|
                if 0 <= j < c.attributes@.len() {
                    proof {
                        vstd::std_specs::vec::axiom_vec_index_decreases(c.attributes, j);
                    }
                    attribute_view(&c.attributes@[j])
                } else {
                    arbitrary()
                },
        ),
    }
}

/// The abstract values of a sequence of attributes.
pub open spec fn attribute_views(v: Seq<Attribute>) -> Seq<SpecAttribute> {
    Seq::new(v.len(), |j: int| attribute_view(&v[j]))
}

/// The abstract values of a sequence of record components.
pub open spec fn component_views(v: Seq<RecordComponentInfo>) -> Seq<SpecRecordComponentInfo> {
    Seq::new(v.len(), |j: int| component_view(&v[j]))
}

/// The bytes of attributes, one after another.
pub open spec fn attributes_bytes(s: Seq<SpecAttribute>) -> Seq<u8>
    decreases s,
{
    if s.len() == 0 {
        Seq::empty()
    } else {
        attributes_bytes(s.subrange(0, s.len() - 1)) + attribute_bytes(s[s.len() - 1])
    }
}

/// The bytes of a record component; the count is written as stored.
pub open spec fn component_bytes(c: SpecRecordComponentInfo) -> Seq<u8>
    decreases c,
{
    u16_bytes(c.name_index) + u16_bytes(c.descriptor_index) + u16_bytes(c.attributes_count) + attributes_bytes(
        c.attributes,
    )
}

/// The bytes of record components, one after another.
pub open spec fn components_bytes(s: Seq<SpecRecordComponentInfo>) -> Seq<u8>
    decreases s,
{
    if s.len() == 0 {
        Seq::empty()
    } else {
        components_bytes(s.subrange(0, s.len() - 1)) + component_bytes(s[s.len() - 1])
    }
}

/// Appends the bytes of every attribute of `v`, in order.
pub fn emit_attributes(v: &Vec<Attribute>, buff: &mut Vec<u8>)
    ensures
        final(buff)@ == old(buff)@ + attributes_bytes(attribute_views(v@)),
    decreases v, 0nat,
{
    let mut i: usize = 0;
    while i < v.len()
        invariant
            i <= v@.len(),
            buff@ == old(buff)@ + attributes_bytes(attribute_views(v@).subrange(0, i as int)),
        decreases v@.len() - i,
    {
        proof {
            vstd::std_specs::vec::axiom_vec_index_decreases(*v, i as int);
        }
        v[i].emit(buff);
        proof {
            let s = attribute_views(v@).subrange(0, i + 1);
            assert(s.subrange(0, s.len() - 1) =~= attribute_views(v@).subrange(0, i as int));
        }
        i = i + 1;
    }
    assert(attribute_views(v@).subrange(0, v@.len() as int) =~= attribute_views(v@));
}

fn emit_components(v: &Vec<RecordComponentInfo>, buff: &mut Vec<u8>)
    ensures
        final(buff)@ == old(buff)@ + components_bytes(component_views(v@)),
    decreases v, 0nat,
{
    let mut i: usize = 0;
    while i < v.len()
        invariant
            i <= v@.len(),
            buff@ == old(buff)@ + components_bytes(component_views(v@).subrange(0, i as int)),
        decreases v@.len() - i,
    {
        proof {
            vstd::std_specs::vec::axiom_vec_index_decreases(*v, i as int);
        }
        v[i].emit(buff);
        proof {
            let s = component_views(v@).subrange(0, i + 1);
            assert(s.subrange(0, s.len() - 1) =~= component_views(v@).subrange(0, i as int));
        }
        i = i + 1;
    }
    assert(component_views(v@).subrange(0, v@.len() as int) =~= component_views(v@));
}

impl RecordComponentInfo {
    /// Appends the component's bytes.
    pub fn emit(&self, buff: &mut Vec<u8>)
        ensures
            final(buff)@ == old(buff)@ + component_bytes(component_view(self)),
        decreases self, 0nat,
    {
        put_u16(buff, self.name_index);
        put_u16(buff, self.descriptor_index);
        put_u16(buff, self.attributes_count);
        emit_attributes(&self.attributes, buff);
        assert(attribute_views(self.attributes@) =~= component_view(self).attributes);
        assert(buff@ =~= old(buff)@ + component_bytes(component_view(self)));
    }

    /// Appends the component's bytes and returns their number.
    pub fn write(self, buff: &mut Vec<u8>) -> (n: usize)
        ensures
            final(buff)@ == old(buff)@ + component_bytes(component_view(&self)),
            n == component_bytes(component_view(&self)).len(),
    {
        let start = buff.len();
        self.emit(buff);
        buff.len() - start
    }
}

impl View for RecordComponentInfo {
    type V = SpecRecordComponentInfo;

    open spec fn view(&self) -> SpecRecordComponentInfo {
        component_view(self)
    }
}

impl View for Attribute {
    type V = SpecAttribute;

    open spec fn view(&self) -> SpecAttribute {
        attribute_view(self)
    }
}

/// An attribute of a class, field, method, code body or record component.
#[derive(Debug)]
#[allow(inconsistent_fields)]
pub enum Attribute {
    ConstantValue {
        attribute_name_index: u16,
        attribute_length: u32,
        constantvalue_index: u16,
    },
    Code {
        attribute_name_index: u16,
        attribute_length: u32,
        max_stack: u16,
        max_locals: u16,
        code_length: u32,
        code: Vec<u8>,
        exception_table_length: u16,
        exception_table: Vec<ExceptionTableEntry>,
        attributes_count: u16,
        attributes: Vec<Attribute>,
    },
    StackMapTable {
        attribute_name_index: u16,
        attribute_length: u32,
        number_of_entries: u16,
        entries: Vec<StackMapFrame>,
    },
    Exceptions {
        attribute_name_index: u16,
        attribute_length: u32,
        number_of_exceptions: u16,
        exception_index_table: Vec<u16>,
    },
    InnerClasses {
        attribute_name_index: u16,
        attribute_length: u32,
        number_of_classes: u16,
        classes: Vec<InnerClassEntry>,
    },
    EnclosingMethod {
        attribute_name_index: u16,
        attribute_length: u32,
        class_index: u16,
        method_index: u16,
    },
    Synthetic {
        attribute_name_index: u16,
        attribute_length: u32,
    },
    Signature {
        attribute_name_index: u16,
        attribute_length: u32,
        signature_index: u16,
    },
    SourceFile {
        attribute_name_index: u16,
        attribute_length: u32,
        sourcefile_index: u16,
    },
    SourceDebugExtension {
        attribute_name_index: u16,
        attribute_length: u32,
        debug_extension: String,
    },
    LineNumberTable {
        attribute_name_index: u16,
        attribute_length: u32,
        line_number_table_length: u16,
        line_number_table: Vec<LineNumberEntry>,
    },
    LocalVariableTable {
        attribute_name_index: u16,
        attribute_length: u32,
        local_variable_table_length: u16,
        local_variable_table: Vec<LocalVariableTableEntry>,
    },
    LocalVariableTypeTable {
        attribute_name_index: u16,
        attribute_length: u32,
        local_variable_type_table_length: u16,
        local_variable_type_table: Vec<LocalVariableTypeTableEntry>,
    },
    Deprecated {
        attribute_name_index: u16,
        attribute_length: u32,
    },
    RuntimeVisibleAnnotations {
        attribute_name_index: u16,
        attribute_length: u32,
        num_annotations: u16,
        annotations: Vec<Annotation>,
    },
    RuntimeInvisibleAnnotations {
        attribute_name_index: u16,
        attribute_length: u32,
        num_annotations: u16,
        annotations: Vec<Annotation>,
    },
    RuntimeVisibleParameterAnnotations {
        attribute_name_index: u16,
        attribute_length: u32,
        num_parameters: u8,
        parameter_annotations: Vec<ParameterAnnotation>,
    },
    RuntimeInvisibleParameterAnnotations {
        attribute_name_index: u16,
        attribute_length: u32,
        num_parameters: u8,
        parameter_annotations: Vec<ParameterAnnotation>,
    },
    RuntimeVisibleTypeAnnotations {
        attribute_name_index: u16,
        attribute_length: u32,
        num_parameters: u16,
        annotations: Vec<TypeAnnotation>,
    },
    RuntimeInvisibleTypeAnnotations {
        attribute_name_index: u16,
        attribute_length: u32,
        num_parameters: u16,
        annotations: Vec<TypeAnnotation>,
    },
    AnnotationDefault {
        attribute_name_index: u16,
        attribute_length: u32,
        default_value: ElementValue,
    },
    BootstrapMethods {
        attribute_name_index: u16,
        attribute_length: u32,
        num_bootstrap_methods: u16,
        bootstrap_methods: Vec<BootstrapMethodEntry>,
    },
    MethodParameters {
        attribute_name_index: u16,
        attribute_length: u32,
        parameters_count: u8,
        parameters: Vec<Parameter>,
    },
    Module {
        attribute_name_index: u16,
        attribute_length: u32,
        module_name_index: u16,
        module_flags: u16,
        module_version_index: u16,
        requires_count: u16,
        requires_entries: Vec<RequiresEntry>,
        exports_count: u16,
        exports: Vec<ExportsEntry>,
        opens_count: u16,
        opens: Vec<OpensEntry>,
        uses_count: u16,
        uses_index: Vec<u16>,
        provides_count: u16,
        provides: Vec<ProvidesEntry>,
    },
    ModulePackages {
        attribute_name_index: u16,
        attribute_length: u32,
        package_count: u16,
        package_index: Vec<u16>,
    },
    ModuleMainClass {
        attribute_name_index: u16,
        attribute_length: u32,
        main_class_index: u16,
    },
    NestHost {
        attribute_name_index: u16,
        attribute_length: u32,
        host_class_index: u16,
    },
    NestMembers {
        attribute_name_index: u16,
        attribute_length: u32,
        number_of_classes: u16,
        classes: Vec<u16>,
    },
    Record {
        attribute_name_index: u16,
        attribute_length: u32,
        components_count: u16,
        components: Vec<RecordComponentInfo>,
    },
    PermittedSubclasses {
        attribute_name_index: u16,
        attribute_length: u32,
        number_of_classes: u16,
        classes: Vec<u16>,
    },
    ExternalAttribute {
        attribute_name_index: u16,
        attribute_length: u32,
        info: Vec<u8>,
    },
}

/// The abstract value of an attribute.
#[allow(inconsistent_fields)]
pub enum SpecAttribute {
    ConstantValue {
        attribute_name_index: u16,
        attribute_length: u32,
        constantvalue_index: u16,
    },
    Code {
        attribute_name_index: u16,
        attribute_length: u32,
        max_stack: u16,
        max_locals: u16,
        code_length: u32,
        code: Seq<u8>,
        exception_table_length: u16,
        exception_table: Seq<ExceptionTableEntry>,
        attributes_count: u16,
        attributes: Seq<SpecAttribute>,
    },
    StackMapTable {
        attribute_name_index: u16,
        attribute_length: u32,
        number_of_entries: u16,
        entries: Seq<SpecStackMapFrame>,
    },
    Exceptions {
        attribute_name_index: u16,
        attribute_length: u32,
        number_of_exceptions: u16,
        exception_index_table: Seq<u16>,
    },
    InnerClasses {
        attribute_name_index: u16,
        attribute_length: u32,
        number_of_classes: u16,
        classes: Seq<InnerClassEntry>,
    },
    EnclosingMethod {
        attribute_name_index: u16,
        attribute_length: u32,
        class_index: u16,
        method_index: u16,
    },
    Synthetic {
        attribute_name_index: u16,
        attribute_length: u32,
    },
    Signature {
        attribute_name_index: u16,
        attribute_length: u32,
        signature_index: u16,
    },
    SourceFile {
        attribute_name_index: u16,
        attribute_length: u32,
        sourcefile_index: u16,
    },
    SourceDebugExtension {
        attribute_name_index: u16,
        attribute_length: u32,
        debug_extension: Seq<char>,
    },
    LineNumberTable {
        attribute_name_index: u16,
        attribute_length: u32,
        line_number_table_length: u16,
        line_number_table: Seq<LineNumberEntry>,
    },
    LocalVariableTable {
        attribute_name_index: u16,
        attribute_length: u32,
        local_variable_table_length: u16,
        local_variable_table: Seq<LocalVariableTableEntry>,
    },
    LocalVariableTypeTable {
        attribute_name_index: u16,
        attribute_length: u32,
        local_variable_type_table_length: u16,
        local_variable_type_table: Seq<LocalVariableTypeTableEntry>,
    },
    Deprecated {
        attribute_name_index: u16,
        attribute_length: u32,
    },
    RuntimeVisibleAnnotations {
        attribute_name_index: u16,
        attribute_length: u32,
        num_annotations: u16,
        annotations: Seq<SpecAnnotation>,
    },
    RuntimeInvisibleAnnotations {
        attribute_name_index: u16,
        attribute_length: u32,
        num_annotations: u16,
        annotations: Seq<SpecAnnotation>,
    },
    RuntimeVisibleParameterAnnotations {
        attribute_name_index: u16,
        attribute_length: u32,
        num_parameters: u8,
        parameter_annotations: Seq<SpecParameterAnnotation>,
    },
    RuntimeInvisibleParameterAnnotations {
        attribute_name_index: u16,
        attribute_length: u32,
        num_parameters: u8,
        parameter_annotations: Seq<SpecParameterAnnotation>,
    },
    RuntimeVisibleTypeAnnotations {
        attribute_name_index: u16,
        attribute_length: u32,
        num_parameters: u16,
        annotations: Seq<SpecTypeAnnotation>,
    },
    RuntimeInvisibleTypeAnnotations {
        attribute_name_index: u16,
        attribute_length: u32,
        num_parameters: u16,
        annotations: Seq<SpecTypeAnnotation>,
    },
    AnnotationDefault {
        attribute_name_index: u16,
        attribute_length: u32,
        default_value: SpecElementValue,
    },
    BootstrapMethods {
        attribute_name_index: u16,
        attribute_length: u32,
        num_bootstrap_methods: u16,
        bootstrap_methods: Seq<SpecBootstrapMethodEntry>,
    },
    MethodParameters {
        attribute_name_index: u16,
        attribute_length: u32,
        parameters_count: u8,
        parameters: Seq<Parameter>,
    },
    Module {
        attribute_name_index: u16,
        attribute_length: u32,
        module_name_index: u16,
        module_flags: u16,
        module_version_index: u16,
        requires_count: u16,
        requires_entries: Seq<RequiresEntry>,
        exports_count: u16,
        exports: Seq<ExportsEntry>,
        opens_count: u16,
        opens: Seq<OpensEntry>,
        uses_count: u16,
        uses_index: Seq<u16>,
        provides_count: u16,
        provides: Seq<ProvidesEntry>,
    },
    ModulePackages {
        attribute_name_index: u16,
        attribute_length: u32,
        package_count: u16,
        package_index: Seq<u16>,
    },
    ModuleMainClass {
        attribute_name_index: u16,
        attribute_length: u32,
        main_class_index: u16,
    },
    NestHost {
        attribute_name_index: u16,
        attribute_length: u32,
        host_class_index: u16,
    },
    NestMembers {
        attribute_name_index: u16,
        attribute_length: u32,
        number_of_classes: u16,
        classes: Seq<u16>,
    },
    Record {
        attribute_name_index: u16,
        attribute_length: u32,
        components_count: u16,
        components: Seq<SpecRecordComponentInfo>,
    },
    PermittedSubclasses {
        attribute_name_index: u16,
        attribute_length: u32,
        number_of_classes: u16,
        classes: Seq<u16>,
    },
    ExternalAttribute {
        attribute_name_index: u16,
        attribute_length: u32,
        info: Seq<u8>,
    },
}

/// The abstract value of an attribute.
pub open spec fn attribute_view(a: &Attribute) -> SpecAttribute
    decreases a,
{
    match a {
        Attribute::ConstantValue { attribute_name_index, attribute_length, constantvalue_index } => SpecAttribute::ConstantValue {
            attribute_name_index: *attribute_name_index,
            attribute_length: *attribute_length,
            constantvalue_index: *constantvalue_index,
        },
        Attribute::Code { attribute_name_index, attribute_length, max_stack, max_locals, code_length, code, exception_table_length, exception_table, attributes_count, attributes } => SpecAttribute::Code {
            attribute_name_index: *attribute_name_index,
            attribute_length: *attribute_length,
            max_stack: *max_stack,
            max_locals: *max_locals,
            code_length: *code_length,
            code: code@,
            exception_table_length: *exception_table_length,
            exception_table: exception_table@,
            attributes_count: *attributes_count,
            attributes: Seq::new(
                attributes@.len(),
                |j: int|
                    if 0 <= j < attributes@.len() {
                        proof {
                            vstd::std_specs::vec::axiom_vec_index_decreases(*attributes, j);
                        }
                        attribute_view(&attributes@[j])
                    } else {
                        arbitrary()
                    },
            ),
        },
        Attribute::StackMapTable { attribute_name_index, attribute_length, number_of_entries, entries } => SpecAttribute::StackMapTable {
            attribute_name_index: *attribute_name_index,
            attribute_length: *attribute_length,
            number_of_entries: *number_of_entries,
            entries: entries@.map_values(|x: StackMapFrame| x@),
        },
        Attribute::Exceptions { attribute_name_index, attribute_length, number_of_exceptions, exception_index_table } => SpecAttribute::Exceptions {
            attribute_name_index: *attribute_name_index,
            attribute_length: *attribute_length,
            number_of_exceptions: *number_of_exceptions,
            exception_index_table: exception_index_table@,
        },
        Attribute::InnerClasses { attribute_name_index, attribute_length, number_of_classes, classes } => SpecAttribute::InnerClasses {
            attribute_name_index: *attribute_name_index,
            attribute_length: *attribute_length,
            number_of_classes: *number_of_classes,
            classes: classes@,
        },
        Attribute::EnclosingMethod { attribute_name_index, attribute_length, class_index, method_index } => SpecAttribute::EnclosingMethod {
            attribute_name_index: *attribute_name_index,
            attribute_length: *attribute_length,
            class_index: *class_index,
            method_index: *method_index,
        },
        Attribute::Synthetic { attribute_name_index, attribute_length } => SpecAttribute::Synthetic {
            attribute_name_index: *attribute_name_index,
            attribute_length: *attribute_length,
        },
        Attribute::Signature { attribute_name_index, attribute_length, signature_index } => SpecAttribute::Signature {
            attribute_name_index: *attribute_name_index,
            attribute_length: *attribute_length,
            signature_index: *signature_index,
        },
        Attribute::SourceFile { attribute_name_index, attribute_length, sourcefile_index } => SpecAttribute::SourceFile {
            attribute_name_index: *attribute_name_index,
            attribute_length: *attribute_length,
            sourcefile_index: *sourcefile_index,
        },
        Attribute::SourceDebugExtension { attribute_name_index, attribute_length, debug_extension } => SpecAttribute::SourceDebugExtension {
            attribute_name_index: *attribute_name_index,
            attribute_length: *attribute_length,
            debug_extension: debug_extension@,
        },
        Attribute::LineNumberTable { attribute_name_index, attribute_length, line_number_table_length, line_number_table } => SpecAttribute::LineNumberTable {
            attribute_name_index: *attribute_name_index,
            attribute_length: *attribute_length,
            line_number_table_length: *line_number_table_length,
            line_number_table: line_number_table@,
        },
        Attribute::LocalVariableTable { attribute_name_index, attribute_length, local_variable_table_length, local_variable_table } => SpecAttribute::LocalVariableTable {
            attribute_name_index: *attribute_name_index,
            attribute_length: *attribute_length,
            local_variable_table_length: *local_variable_table_length,
            local_variable_table: local_variable_table@,
        },
        Attribute::LocalVariableTypeTable { attribute_name_index, attribute_length, local_variable_type_table_length, local_variable_type_table } => SpecAttribute::LocalVariableTypeTable {
            attribute_name_index: *attribute_name_index,
            attribute_length: *attribute_length,
            local_variable_type_table_length: *local_variable_type_table_length,
            local_variable_type_table: local_variable_type_table@,
        },
        Attribute::Deprecated { attribute_name_index, attribute_length } => SpecAttribute::Deprecated {
            attribute_name_index: *attribute_name_index,
            attribute_length: *attribute_length,
        },
        Attribute::RuntimeVisibleAnnotations { attribute_name_index, attribute_length, num_annotations, annotations } => SpecAttribute::RuntimeVisibleAnnotations {
            attribute_name_index: *attribute_name_index,
            attribute_length: *attribute_length,
            num_annotations: *num_annotations,
            annotations: annotation_views(annotations@),
        },
        Attribute::RuntimeInvisibleAnnotations { attribute_name_index, attribute_length, num_annotations, annotations } => SpecAttribute::RuntimeInvisibleAnnotations {
            attribute_name_index: *attribute_name_index,
            attribute_length: *attribute_length,
            num_annotations: *num_annotations,
            annotations: annotation_views(annotations@),
        },
        Attribute::RuntimeVisibleParameterAnnotations { attribute_name_index, attribute_length, num_parameters, parameter_annotations } => SpecAttribute::RuntimeVisibleParameterAnnotations {
            attribute_name_index: *attribute_name_index,
            attribute_length: *attribute_length,
            num_parameters: *num_parameters,
            parameter_annotations: parameter_annotations@.map_values(|x: ParameterAnnotation| x@),
        },
        Attribute::RuntimeInvisibleParameterAnnotations { attribute_name_index, attribute_length, num_parameters, parameter_annotations } => SpecAttribute::RuntimeInvisibleParameterAnnotations {
            attribute_name_index: *attribute_name_index,
            attribute_length: *attribute_length,
            num_parameters: *num_parameters,
            parameter_annotations: parameter_annotations@.map_values(|x: ParameterAnnotation| x@),
        },
        Attribute::RuntimeVisibleTypeAnnotations { attribute_name_index, attribute_length, num_parameters, annotations } => SpecAttribute::RuntimeVisibleTypeAnnotations {
            attribute_name_index: *attribute_name_index,
            attribute_length: *attribute_length,
            num_parameters: *num_parameters,
            annotations: annotations@.map_values(|x: TypeAnnotation| x@),
        },
        Attribute::RuntimeInvisibleTypeAnnotations { attribute_name_index, attribute_length, num_parameters, annotations } => SpecAttribute::RuntimeInvisibleTypeAnnotations {
            attribute_name_index: *attribute_name_index,
            attribute_length: *attribute_length,
            num_parameters: *num_parameters,
            annotations: annotations@.map_values(|x: TypeAnnotation| x@),
        },
        Attribute::AnnotationDefault { attribute_name_index, attribute_length, default_value } => SpecAttribute::AnnotationDefault {
            attribute_name_index: *attribute_name_index,
            attribute_length: *attribute_length,
            default_value: element_value_view(default_value),
        },
        Attribute::BootstrapMethods { attribute_name_index, attribute_length, num_bootstrap_methods, bootstrap_methods } => SpecAttribute::BootstrapMethods {
            attribute_name_index: *attribute_name_index,
            attribute_length: *attribute_length,
            num_bootstrap_methods: *num_bootstrap_methods,
            bootstrap_methods: bootstrap_methods@.map_values(|x: BootstrapMethodEntry| x@),
        },
        Attribute::MethodParameters { attribute_name_index, attribute_length, parameters_count, parameters } => SpecAttribute::MethodParameters {
            attribute_name_index: *attribute_name_index,
            attribute_length: *attribute_length,
            parameters_count: *parameters_count,
            parameters: parameters@,
        },
        Attribute::Module { attribute_name_index, attribute_length, module_name_index, module_flags, module_version_index, requires_count, requires_entries, exports_count, exports, opens_count, opens, uses_count, uses_index, provides_count, provides } => SpecAttribute::Module {
            attribute_name_index: *attribute_name_index,
            attribute_length: *attribute_length,
            module_name_index: *module_name_index,
            module_flags: *module_flags,
            module_version_index: *module_version_index,
            requires_count: *requires_count,
            requires_entries: requires_entries@,
            exports_count: *exports_count,
            exports: exports@,
            opens_count: *opens_count,
            opens: opens@,
            uses_count: *uses_count,
            uses_index: uses_index@,
            provides_count: *provides_count,
            provides: provides@,
        },
        Attribute::ModulePackages { attribute_name_index, attribute_length, package_count, package_index } => SpecAttribute::ModulePackages {
            attribute_name_index: *attribute_name_index,
            attribute_length: *attribute_length,
            package_count: *package_count,
            package_index: package_index@,
        },
        Attribute::ModuleMainClass { attribute_name_index, attribute_length, main_class_index } => SpecAttribute::ModuleMainClass {
            attribute_name_index: *attribute_name_index,
            attribute_length: *attribute_length,
            main_class_index: *main_class_index,
        },
        Attribute::NestHost { attribute_name_index, attribute_length, host_class_index } => SpecAttribute::NestHost {
            attribute_name_index: *attribute_name_index,
            attribute_length: *attribute_length,
            host_class_index: *host_class_index,
        },
        Attribute::NestMembers { attribute_name_index, attribute_length, number_of_classes, classes } => SpecAttribute::NestMembers {
            attribute_name_index: *attribute_name_index,
            attribute_length: *attribute_length,
            number_of_classes: *number_of_classes,
            classes: classes@,
        },
        Attribute::Record { attribute_name_index, attribute_length, components_count, components } => SpecAttribute::Record {
            attribute_name_index: *attribute_name_index,
            attribute_length: *attribute_length,
            components_count: *components_count,
            components: Seq::new(
                components@.len(),
                |j: int|
                    if 0 <= j < components@.len() {
                        proof {
                            vstd::std_specs::vec::axiom_vec_index_decreases(*components, j);
                        }
                        component_view(&components@[j])
                    } else {
                        arbitrary()
                    },
            ),
        },
        Attribute::PermittedSubclasses { attribute_name_index, attribute_length, number_of_classes, classes } => SpecAttribute::PermittedSubclasses {
            attribute_name_index: *attribute_name_index,
            attribute_length: *attribute_length,
            number_of_classes: *number_of_classes,
            classes: classes@,
        },
        Attribute::ExternalAttribute { attribute_name_index, attribute_length, info } => SpecAttribute::ExternalAttribute {
            attribute_name_index: *attribute_name_index,
            attribute_length: *attribute_length,
            info: info@,
        },
    }
}

/// The bytes of an attribute in class-file form: name index and length as stored,
/// then the attribute's fields; counts are written as stored.
pub open spec fn attribute_bytes(a: SpecAttribute) -> Seq<u8>
    decreases a,
{
    match a {
        SpecAttribute::ConstantValue { attribute_name_index, attribute_length, constantvalue_index } => {
            u16_bytes(attribute_name_index)
                + u32_bytes(attribute_length)
                + u16_bytes(constantvalue_index)
        },
        SpecAttribute::Code { attribute_name_index, attribute_length, max_stack, max_locals, code_length, code, exception_table_length, exception_table, attributes_count, attributes } => {
            u16_bytes(attribute_name_index)
                + u32_bytes(attribute_length)
                + u16_bytes(max_stack)
                + u16_bytes(max_locals)
                + u32_bytes(code_length)
                + code
                + u16_bytes(exception_table_length)
                + encoded_all(exception_table)
                + u16_bytes(attributes_count)
                + attributes_bytes(attributes)
        },
        SpecAttribute::StackMapTable { attribute_name_index, attribute_length, number_of_entries, entries } => {
            u16_bytes(attribute_name_index)
                + u32_bytes(attribute_length)
                + u16_bytes(number_of_entries)
                + concat_map(entries, |x: SpecStackMapFrame| frame_bytes(x))
        },
        SpecAttribute::Exceptions { attribute_name_index, attribute_length, number_of_exceptions, exception_index_table } => {
            u16_bytes(attribute_name_index)
                + u32_bytes(attribute_length)
                + u16_bytes(number_of_exceptions)
                + u16s_bytes(exception_index_table)
        },
        SpecAttribute::InnerClasses { attribute_name_index, attribute_length, number_of_classes, classes } => {
            u16_bytes(attribute_name_index)
                + u32_bytes(attribute_length)
                + u16_bytes(number_of_classes)
                + encoded_all(classes)
        },
        SpecAttribute::EnclosingMethod { attribute_name_index, attribute_length, class_index, method_index } => {
            u16_bytes(attribute_name_index)
                + u32_bytes(attribute_length)
                + u16_bytes(class_index)
                + u16_bytes(method_index)
        },
        SpecAttribute::Synthetic { attribute_name_index, attribute_length } => {
            u16_bytes(attribute_name_index)
                + u32_bytes(attribute_length)
        },
        SpecAttribute::Signature { attribute_name_index, attribute_length, signature_index } => {
            u16_bytes(attribute_name_index)
                + u32_bytes(attribute_length)
                + u16_bytes(signature_index)
        },
        SpecAttribute::SourceFile { attribute_name_index, attribute_length, sourcefile_index } => {
            u16_bytes(attribute_name_index)
                + u32_bytes(attribute_length)
                + u16_bytes(sourcefile_index)
        },
        SpecAttribute::SourceDebugExtension { attribute_name_index, attribute_length, debug_extension } => {
            u16_bytes(attribute_name_index)
                + u32_bytes(attribute_length)
                + encode_utf8(debug_extension)
        },
        SpecAttribute::LineNumberTable { attribute_name_index, attribute_length, line_number_table_length, line_number_table } => {
            u16_bytes(attribute_name_index)
                + u32_bytes(attribute_length)
                + u16_bytes(line_number_table_length)
                + encoded_all(line_number_table)
        },
        SpecAttribute::LocalVariableTable { attribute_name_index, attribute_length, local_variable_table_length, local_variable_table } => {
            u16_bytes(attribute_name_index)
                + u32_bytes(attribute_length)
                + u16_bytes(local_variable_table_length)
                + encoded_all(local_variable_table)
        },
        SpecAttribute::LocalVariableTypeTable { attribute_name_index, attribute_length, local_variable_type_table_length, local_variable_type_table } => {
            u16_bytes(attribute_name_index)
                + u32_bytes(attribute_length)
                + u16_bytes(local_variable_type_table_length)
                + encoded_all(local_variable_type_table)
        },
        SpecAttribute::Deprecated { attribute_name_index, attribute_length } => {
            u16_bytes(attribute_name_index)
                + u32_bytes(attribute_length)
        },
        SpecAttribute::RuntimeVisibleAnnotations { attribute_name_index, attribute_length, num_annotations, annotations } => {
            u16_bytes(attribute_name_index)
                + u32_bytes(attribute_length)
                + u16_bytes(num_annotations)
                + annotations_bytes(annotations)
        },
        SpecAttribute::RuntimeInvisibleAnnotations { attribute_name_index, attribute_length, num_annotations, annotations } => {
            u16_bytes(attribute_name_index)
                + u32_bytes(attribute_length)
                + u16_bytes(num_annotations)
                + annotations_bytes(annotations)
        },
        SpecAttribute::RuntimeVisibleParameterAnnotations { attribute_name_index, attribute_length, num_parameters, parameter_annotations } => {
            u16_bytes(attribute_name_index)
                + u32_bytes(attribute_length)
                + seq![num_parameters]
                + concat_map(parameter_annotations, |x: SpecParameterAnnotation| parameter_annotation_bytes(x))
        },
        SpecAttribute::RuntimeInvisibleParameterAnnotations { attribute_name_index, attribute_length, num_parameters, parameter_annotations } => {
            u16_bytes(attribute_name_index)
                + u32_bytes(attribute_length)
                + seq![num_parameters]
                + concat_map(parameter_annotations, |x: SpecParameterAnnotation| parameter_annotation_bytes(x))
        },
        SpecAttribute::RuntimeVisibleTypeAnnotations { attribute_name_index, attribute_length, num_parameters, annotations } => {
            u16_bytes(attribute_name_index)
                + u32_bytes(attribute_length)
                + u16_bytes(num_parameters)
                + concat_map(annotations, |x: SpecTypeAnnotation| type_annotation_bytes(x))
        },
        SpecAttribute::RuntimeInvisibleTypeAnnotations { attribute_name_index, attribute_length, num_parameters, annotations } => {
            u16_bytes(attribute_name_index)
                + u32_bytes(attribute_length)
                + u16_bytes(num_parameters)
                + concat_map(annotations, |x: SpecTypeAnnotation| type_annotation_bytes(x))
        },
        SpecAttribute::AnnotationDefault { attribute_name_index, attribute_length, default_value } => {
            u16_bytes(attribute_name_index)
                + u32_bytes(attribute_length)
                + element_value_bytes(default_value)
        },
        SpecAttribute::BootstrapMethods { attribute_name_index, attribute_length, num_bootstrap_methods, bootstrap_methods } => {
            u16_bytes(attribute_name_index)
                + u32_bytes(attribute_length)
                + u16_bytes(num_bootstrap_methods)
                + concat_map(bootstrap_methods, |x: SpecBootstrapMethodEntry| bootstrap_bytes(x))
        },
        SpecAttribute::MethodParameters { attribute_name_index, attribute_length, parameters_count, parameters } => {
            u16_bytes(attribute_name_index)
                + u32_bytes(attribute_length)
                + seq![parameters_count]
                + encoded_all(parameters)
        },
        SpecAttribute::Module { attribute_name_index, attribute_length, module_name_index, module_flags, module_version_index, requires_count, requires_entries, exports_count, exports, opens_count, opens, uses_count, uses_index, provides_count, provides } => {
            u16_bytes(attribute_name_index)
                + u32_bytes(attribute_length)
                + u16_bytes(module_name_index)
                + u16_bytes(module_flags)
                + u16_bytes(module_version_index)
                + u16_bytes(requires_count)
                + encoded_all(requires_entries)
                + u16_bytes(exports_count)
                + encoded_all(exports)
                + u16_bytes(opens_count)
                + encoded_all(opens)
                + u16_bytes(uses_count)
                + u16s_bytes(uses_index)
                + u16_bytes(provides_count)
                + encoded_all(provides)
        },
        SpecAttribute::ModulePackages { attribute_name_index, attribute_length, package_count, package_index } => {
            u16_bytes(attribute_name_index)
                + u32_bytes(attribute_length)
                + u16_bytes(package_count)
                + u16s_bytes(package_index)
        },
        SpecAttribute::ModuleMainClass { attribute_name_index, attribute_length, main_class_index } => {
            u16_bytes(attribute_name_index)
                + u32_bytes(attribute_length)
                + u16_bytes(main_class_index)
        },
        SpecAttribute::NestHost { attribute_name_index, attribute_length, host_class_index } => {
            u16_bytes(attribute_name_index)
                + u32_bytes(attribute_length)
                + u16_bytes(host_class_index)
        },
        SpecAttribute::NestMembers { attribute_name_index, attribute_length, number_of_classes, classes } => {
            u16_bytes(attribute_name_index)
                + u32_bytes(attribute_length)
                + u16_bytes(number_of_classes)
                + u16s_bytes(classes)
        },
        SpecAttribute::Record { attribute_name_index, attribute_length, components_count, components } => {
            u16_bytes(attribute_name_index)
                + u32_bytes(attribute_length)
                + u16_bytes(components_count)
                + components_bytes(components)
        },
        SpecAttribute::PermittedSubclasses { attribute_name_index, attribute_length, number_of_classes, classes } => {
            u16_bytes(attribute_name_index)
                + u32_bytes(attribute_length)
                + u16_bytes(number_of_classes)
                + u16s_bytes(classes)
        },
        SpecAttribute::ExternalAttribute { attribute_name_index, attribute_length, info } => {
            u16_bytes(attribute_name_index)
                + u32_bytes(attribute_length)
                + info
        },
    }
}

impl Attribute {
    /// Appends the attribute's bytes in class-file form.
    pub fn emit(&self, buff: &mut Vec<u8>)
        ensures
            final(buff)@ == old(buff)@ + attribute_bytes(attribute_view(self)),
        decreases self, 1nat,
    {
        match self {
            Attribute::ConstantValue { .. } => self.emit_fixed(buff),
            Attribute::Code { .. } => self.emit_code(buff),
            Attribute::StackMapTable { .. } => self.emit_stack_map_table(buff),
            Attribute::Exceptions { .. } => self.emit_index_lists(buff),
            Attribute::InnerClasses { .. } => self.emit_tables(buff),
            Attribute::EnclosingMethod { .. } => self.emit_fixed(buff),
            Attribute::Synthetic { .. } => self.emit_fixed(buff),
            Attribute::Signature { .. } => self.emit_fixed(buff),
            Attribute::SourceFile { .. } => self.emit_fixed(buff),
            Attribute::SourceDebugExtension { .. } => self.emit_fixed(buff),
            Attribute::LineNumberTable { .. } => self.emit_tables(buff),
            Attribute::LocalVariableTable { .. } => self.emit_tables(buff),
            Attribute::LocalVariableTypeTable { .. } => self.emit_tables(buff),
            Attribute::Deprecated { .. } => self.emit_fixed(buff),
            Attribute::RuntimeVisibleAnnotations { .. } => self.emit_annotations_attribute(buff),
            Attribute::RuntimeInvisibleAnnotations { .. } => self.emit_annotations_attribute(buff),
            Attribute::RuntimeVisibleParameterAnnotations { .. } => self.emit_parameter_annotations(buff),
            Attribute::RuntimeInvisibleParameterAnnotations { .. } => self.emit_parameter_annotations(buff),
            Attribute::RuntimeVisibleTypeAnnotations { .. } => self.emit_type_annotations(buff),
            Attribute::RuntimeInvisibleTypeAnnotations { .. } => self.emit_type_annotations(buff),
            Attribute::AnnotationDefault { .. } => self.emit_annotations_attribute(buff),
            Attribute::BootstrapMethods { .. } => self.emit_bootstrap_methods(buff),
            Attribute::MethodParameters { .. } => self.emit_tables(buff),
            Attribute::Module { .. } => self.emit_module(buff),
            Attribute::ModulePackages { .. } => self.emit_index_lists(buff),
            Attribute::ModuleMainClass { .. } => self.emit_fixed(buff),
            Attribute::NestHost { .. } => self.emit_fixed(buff),
            Attribute::NestMembers { .. } => self.emit_index_lists(buff),
            Attribute::Record { .. } => self.emit_record(buff),
            Attribute::PermittedSubclasses { .. } => self.emit_index_lists(buff),
            Attribute::ExternalAttribute { .. } => self.emit_fixed(buff),
        }
    }

    /// Appends the bytes of fixed-size attributes.
    fn emit_fixed(&self, buff: &mut Vec<u8>)
        requires
            self is ConstantValue || self is EnclosingMethod || self is Synthetic || self is Signature || self is SourceFile || self is Deprecated || self is ModuleMainClass || self is NestHost || self is SourceDebugExtension || self is ExternalAttribute,
        ensures
            final(buff)@ == old(buff)@ + attribute_bytes(attribute_view(self)),
        decreases self, 0nat,
    {
        let ghost b0 = buff@;
        match self {
            Attribute::ConstantValue { attribute_name_index, attribute_length, constantvalue_index } => {
                put_u16(buff, *attribute_name_index);
                put_u32(buff, *attribute_length);
                put_u16(buff, *constantvalue_index);
                assert(buff@ =~= b0 + attribute_bytes(attribute_view(self)));
            },
            Attribute::EnclosingMethod { attribute_name_index, attribute_length, class_index, method_index } => {
                put_u16(buff, *attribute_name_index);
                put_u32(buff, *attribute_length);
                put_u16(buff, *class_index);
                put_u16(buff, *method_index);
                assert(buff@ =~= b0 + attribute_bytes(attribute_view(self)));
            },
            Attribute::Synthetic { attribute_name_index, attribute_length } => {
                put_u16(buff, *attribute_name_index);
                put_u32(buff, *attribute_length);
                assert(buff@ =~= b0 + attribute_bytes(attribute_view(self)));
            },
            Attribute::Signature { attribute_name_index, attribute_length, signature_index } => {
                put_u16(buff, *attribute_name_index);
                put_u32(buff, *attribute_length);
                put_u16(buff, *signature_index);
                assert(buff@ =~= b0 + attribute_bytes(attribute_view(self)));
            },
            Attribute::SourceFile { attribute_name_index, attribute_length, sourcefile_index } => {
                put_u16(buff, *attribute_name_index);
                put_u32(buff, *attribute_length);
                put_u16(buff, *sourcefile_index);
                assert(buff@ =~= b0 + attribute_bytes(attribute_view(self)));
            },
            Attribute::Deprecated { attribute_name_index, attribute_length } => {
                put_u16(buff, *attribute_name_index);
                put_u32(buff, *attribute_length);
                assert(buff@ =~= b0 + attribute_bytes(attribute_view(self)));
            },
            Attribute::ModuleMainClass { attribute_name_index, attribute_length, main_class_index } => {
                put_u16(buff, *attribute_name_index);
                put_u32(buff, *attribute_length);
                put_u16(buff, *main_class_index);
                assert(buff@ =~= b0 + attribute_bytes(attribute_view(self)));
            },
            Attribute::NestHost { attribute_name_index, attribute_length, host_class_index } => {
                put_u16(buff, *attribute_name_index);
                put_u32(buff, *attribute_length);
                put_u16(buff, *host_class_index);
                assert(buff@ =~= b0 + attribute_bytes(attribute_view(self)));
            },
            Attribute::SourceDebugExtension { attribute_name_index, attribute_length, debug_extension } => {
                put_u16(buff, *attribute_name_index);
                put_u32(buff, *attribute_length);
                put_bytes(buff, debug_extension.as_str().as_bytes());
                assert(buff@ =~= b0 + attribute_bytes(attribute_view(self)));
            },
            Attribute::ExternalAttribute { attribute_name_index, attribute_length, info } => {
                put_u16(buff, *attribute_name_index);
                put_u32(buff, *attribute_length);
                put_bytes(buff, info.as_slice());
                assert(buff@ =~= b0 + attribute_bytes(attribute_view(self)));
            },
            _ => {},
        }
    }

    /// Appends the bytes of attributes made of a list of constant-pool indexes.
    fn emit_index_lists(&self, buff: &mut Vec<u8>)
        requires
            self is Exceptions || self is ModulePackages || self is NestMembers || self is PermittedSubclasses,
        ensures
            final(buff)@ == old(buff)@ + attribute_bytes(attribute_view(self)),
        decreases self, 0nat,
    {
        let ghost b0 = buff@;
        match self {
            Attribute::Exceptions { attribute_name_index, attribute_length, number_of_exceptions, exception_index_table } => {
                put_u16(buff, *attribute_name_index);
                put_u32(buff, *attribute_length);
                put_u16(buff, *number_of_exceptions);
                write_vec_u16_as_bytes(exception_index_table.as_slice(), buff);
                assert(buff@ =~= b0 + attribute_bytes(attribute_view(self)));
            },
            Attribute::ModulePackages { attribute_name_index, attribute_length, package_count, package_index } => {
                put_u16(buff, *attribute_name_index);
                put_u32(buff, *attribute_length);
                put_u16(buff, *package_count);
                write_vec_u16_as_bytes(package_index.as_slice(), buff);
                assert(buff@ =~= b0 + attribute_bytes(attribute_view(self)));
            },
            Attribute::NestMembers { attribute_name_index, attribute_length, number_of_classes, classes } => {
                put_u16(buff, *attribute_name_index);
                put_u32(buff, *attribute_length);
                put_u16(buff, *number_of_classes);
                write_vec_u16_as_bytes(classes.as_slice(), buff);
                assert(buff@ =~= b0 + attribute_bytes(attribute_view(self)));
            },
            Attribute::PermittedSubclasses { attribute_name_index, attribute_length, number_of_classes, classes } => {
                put_u16(buff, *attribute_name_index);
                put_u32(buff, *attribute_length);
                put_u16(buff, *number_of_classes);
                write_vec_u16_as_bytes(classes.as_slice(), buff);
                assert(buff@ =~= b0 + attribute_bytes(attribute_view(self)));
            },
            _ => {},
        }
    }

    /// Appends the bytes of attributes made of a table of fixed-size entries.
    fn emit_tables(&self, buff: &mut Vec<u8>)
        requires
            self is InnerClasses || self is LineNumberTable || self is LocalVariableTable || self is LocalVariableTypeTable || self is MethodParameters,
        ensures
            final(buff)@ == old(buff)@ + attribute_bytes(attribute_view(self)),
        decreases self, 0nat,
    {
        let ghost b0 = buff@;
        match self {
            Attribute::InnerClasses { attribute_name_index, attribute_length, number_of_classes, classes } => {
                put_u16(buff, *attribute_name_index);
                put_u32(buff, *attribute_length);
                put_u16(buff, *number_of_classes);
                emit_all(classes, buff);
                assert(buff@ =~= b0 + attribute_bytes(attribute_view(self)));
            },
            Attribute::LineNumberTable { attribute_name_index, attribute_length, line_number_table_length, line_number_table } => {
                put_u16(buff, *attribute_name_index);
                put_u32(buff, *attribute_length);
                put_u16(buff, *line_number_table_length);
                emit_all(line_number_table, buff);
                assert(buff@ =~= b0 + attribute_bytes(attribute_view(self)));
            },
            Attribute::LocalVariableTable { attribute_name_index, attribute_length, local_variable_table_length, local_variable_table } => {
                put_u16(buff, *attribute_name_index);
                put_u32(buff, *attribute_length);
                put_u16(buff, *local_variable_table_length);
                emit_all(local_variable_table, buff);
                assert(buff@ =~= b0 + attribute_bytes(attribute_view(self)));
            },
            Attribute::LocalVariableTypeTable { attribute_name_index, attribute_length, local_variable_type_table_length, local_variable_type_table } => {
                put_u16(buff, *attribute_name_index);
                put_u32(buff, *attribute_length);
                put_u16(buff, *local_variable_type_table_length);
                emit_all(local_variable_type_table, buff);
                assert(buff@ =~= b0 + attribute_bytes(attribute_view(self)));
            },
            Attribute::MethodParameters { attribute_name_index, attribute_length, parameters_count, parameters } => {
                put_u16(buff, *attribute_name_index);
                put_u32(buff, *attribute_length);
                put_u8(buff, *parameters_count);
                emit_all(parameters, buff);
                assert(buff@ =~= b0 + attribute_bytes(attribute_view(self)));
            },
            _ => {},
        }
    }

    /// Appends the bytes of the `Code` attribute.
    fn emit_code(&self, buff: &mut Vec<u8>)
        requires
            self is Code,
        ensures
            final(buff)@ == old(buff)@ + attribute_bytes(attribute_view(self)),
        decreases self, 0nat,
    {
        let ghost b0 = buff@;
        match self {
            Attribute::Code { attribute_name_index, attribute_length, max_stack, max_locals, code_length, code, exception_table_length, exception_table, attributes_count, attributes } => {
                put_u16(buff, *attribute_name_index);
                put_u32(buff, *attribute_length);
                put_u16(buff, *max_stack);
                put_u16(buff, *max_locals);
                put_u32(buff, *code_length);
                put_bytes(buff, code.as_slice());
                put_u16(buff, *exception_table_length);
                emit_all(exception_table, buff);
                put_u16(buff, *attributes_count);
                emit_attributes(attributes, buff);
                assert(attribute_views(attributes@) =~= Seq::new(
                    attributes@.len(),
                    |j: int| if 0 <= j < attributes@.len() { attribute_view(&attributes@[j]) } else { arbitrary() },
                ));
                assert(attribute_view(self)->Code_attributes == attribute_views(attributes@));
                assert(buff@ =~= b0 + attribute_bytes(attribute_view(self)));
            },
            _ => {},
        }
    }

    /// Appends the bytes of the `StackMapTable` attribute.
    fn emit_stack_map_table(&self, buff: &mut Vec<u8>)
        requires
            self is StackMapTable,
        ensures
            final(buff)@ == old(buff)@ + attribute_bytes(attribute_view(self)),
        decreases self, 0nat,
    {
        let ghost b0 = buff@;
        match self {
            Attribute::StackMapTable { attribute_name_index, attribute_length, number_of_entries, entries } => {
                put_u16(buff, *attribute_name_index);
                put_u32(buff, *attribute_length);
                put_u16(buff, *number_of_entries);
                emit_all(entries, buff);
                proof { lemma_concat_map_views(entries@, |x: StackMapFrame| x@, |x: SpecStackMapFrame| frame_bytes(x), |x: StackMapFrame| x.encoded()); }
                assert(buff@ =~= b0 + attribute_bytes(attribute_view(self)));
            },
            _ => {},
        }
    }

    /// Appends the bytes of the annotation attributes.
    fn emit_annotations_attribute(&self, buff: &mut Vec<u8>)
        requires
            self is RuntimeVisibleAnnotations || self is RuntimeInvisibleAnnotations || self is AnnotationDefault,
        ensures
            final(buff)@ == old(buff)@ + attribute_bytes(attribute_view(self)),
        decreases self, 0nat,
    {
        let ghost b0 = buff@;
        match self {
            Attribute::RuntimeVisibleAnnotations { attribute_name_index, attribute_length, num_annotations, annotations } => {
                put_u16(buff, *attribute_name_index);
                put_u32(buff, *attribute_length);
                put_u16(buff, *num_annotations);
                emit_annotations(annotations, buff);
                assert(buff@ =~= b0 + attribute_bytes(attribute_view(self)));
            },
            Attribute::RuntimeInvisibleAnnotations { attribute_name_index, attribute_length, num_annotations, annotations } => {
                put_u16(buff, *attribute_name_index);
                put_u32(buff, *attribute_length);
                put_u16(buff, *num_annotations);
                emit_annotations(annotations, buff);
                assert(buff@ =~= b0 + attribute_bytes(attribute_view(self)));
            },
            Attribute::AnnotationDefault { attribute_name_index, attribute_length, default_value } => {
                put_u16(buff, *attribute_name_index);
                put_u32(buff, *attribute_length);
                default_value.emit(buff);
                assert(buff@ =~= b0 + attribute_bytes(attribute_view(self)));
            },
            _ => {},
        }
    }

    /// Appends the bytes of the parameter annotation attributes.
    fn emit_parameter_annotations(&self, buff: &mut Vec<u8>)
        requires
            self is RuntimeVisibleParameterAnnotations || self is RuntimeInvisibleParameterAnnotations,
        ensures
            final(buff)@ == old(buff)@ + attribute_bytes(attribute_view(self)),
        decreases self, 0nat,
    {
        let ghost b0 = buff@;
        match self {
            Attribute::RuntimeVisibleParameterAnnotations { attribute_name_index, attribute_length, num_parameters, parameter_annotations } => {
                put_u16(buff, *attribute_name_index);
                put_u32(buff, *attribute_length);
                put_u8(buff, *num_parameters);
                emit_all(parameter_annotations, buff);
                proof { lemma_concat_map_views(parameter_annotations@, |x: ParameterAnnotation| x@, |x: SpecParameterAnnotation| parameter_annotation_bytes(x), |x: ParameterAnnotation| x.encoded()); }
                assert(buff@ =~= b0 + attribute_bytes(attribute_view(self)));
            },
            Attribute::RuntimeInvisibleParameterAnnotations { attribute_name_index, attribute_length, num_parameters, parameter_annotations } => {
                put_u16(buff, *attribute_name_index);
                put_u32(buff, *attribute_length);
                put_u8(buff, *num_parameters);
                emit_all(parameter_annotations, buff);
                proof { lemma_concat_map_views(parameter_annotations@, |x: ParameterAnnotation| x@, |x: SpecParameterAnnotation| parameter_annotation_bytes(x), |x: ParameterAnnotation| x.encoded()); }
                assert(buff@ =~= b0 + attribute_bytes(attribute_view(self)));
            },
            _ => {},
        }
    }

    /// Appends the bytes of the type annotation attributes.
    fn emit_type_annotations(&self, buff: &mut Vec<u8>)
        requires
            self is RuntimeVisibleTypeAnnotations || self is RuntimeInvisibleTypeAnnotations,
        ensures
            final(buff)@ == old(buff)@ + attribute_bytes(attribute_view(self)),
        decreases self, 0nat,
    {
        let ghost b0 = buff@;
        match self {
            Attribute::RuntimeVisibleTypeAnnotations { attribute_name_index, attribute_length, num_parameters, annotations } => {
                put_u16(buff, *attribute_name_index);
                put_u32(buff, *attribute_length);
                put_u16(buff, *num_parameters);
                emit_all(annotations, buff);
                proof { lemma_concat_map_views(annotations@, |x: TypeAnnotation| x@, |x: SpecTypeAnnotation| type_annotation_bytes(x), |x: TypeAnnotation| x.encoded()); }
                assert(buff@ =~= b0 + attribute_bytes(attribute_view(self)));
            },
            Attribute::RuntimeInvisibleTypeAnnotations { attribute_name_index, attribute_length, num_parameters, annotations } => {
                put_u16(buff, *attribute_name_index);
                put_u32(buff, *attribute_length);
                put_u16(buff, *num_parameters);
                emit_all(annotations, buff);
                proof { lemma_concat_map_views(annotations@, |x: TypeAnnotation| x@, |x: SpecTypeAnnotation| type_annotation_bytes(x), |x: TypeAnnotation| x.encoded()); }
                assert(buff@ =~= b0 + attribute_bytes(attribute_view(self)));
            },
            _ => {},
        }
    }

    /// Appends the bytes of the `BootstrapMethods` attribute.
    fn emit_bootstrap_methods(&self, buff: &mut Vec<u8>)
        requires
            self is BootstrapMethods,
        ensures
            final(buff)@ == old(buff)@ + attribute_bytes(attribute_view(self)),
        decreases self, 0nat,
    {
        let ghost b0 = buff@;
        match self {
            Attribute::BootstrapMethods { attribute_name_index, attribute_length, num_bootstrap_methods, bootstrap_methods } => {
                put_u16(buff, *attribute_name_index);
                put_u32(buff, *attribute_length);
                put_u16(buff, *num_bootstrap_methods);
                emit_all(bootstrap_methods, buff);
                proof { lemma_concat_map_views(bootstrap_methods@, |x: BootstrapMethodEntry| x@, |x: SpecBootstrapMethodEntry| bootstrap_bytes(x), |x: BootstrapMethodEntry| x.encoded()); }
                assert(buff@ =~= b0 + attribute_bytes(attribute_view(self)));
            },
            _ => {},
        }
    }

    /// Appends the bytes of the `Module` attribute.
    fn emit_module(&self, buff: &mut Vec<u8>)
        requires
            self is Module,
        ensures
            final(buff)@ == old(buff)@ + attribute_bytes(attribute_view(self)),
        decreases self, 0nat,
    {
        let ghost b0 = buff@;
        match self {
            Attribute::Module { attribute_name_index, attribute_length, module_name_index, module_flags, module_version_index, requires_count, requires_entries, exports_count, exports, opens_count, opens, uses_count, uses_index, provides_count, provides } => {
                let ghost mut acc: Seq<u8> = Seq::empty();
                put_u16(buff, *attribute_name_index);
                proof {
                    acc = acc + u16_bytes(*attribute_name_index);
                }
                assert(buff@ =~= b0 + acc);
                put_u32(buff, *attribute_length);
                proof {
                    acc = acc + u32_bytes(*attribute_length);
                }
                assert(buff@ =~= b0 + acc);
                put_u16(buff, *module_name_index);
                proof {
                    acc = acc + u16_bytes(*module_name_index);
                }
                assert(buff@ =~= b0 + acc);
                put_u16(buff, *module_flags);
                proof {
                    acc = acc + u16_bytes(*module_flags);
                }
                assert(buff@ =~= b0 + acc);
                put_u16(buff, *module_version_index);
                proof {
                    acc = acc + u16_bytes(*module_version_index);
                }
                assert(buff@ =~= b0 + acc);
                put_u16(buff, *requires_count);
                proof {
                    acc = acc + u16_bytes(*requires_count);
                }
                assert(buff@ =~= b0 + acc);
                emit_all(requires_entries, buff);
                proof {
                    acc = acc + encoded_all(requires_entries@);
                }
                assert(buff@ =~= b0 + acc);
                put_u16(buff, *exports_count);
                proof {
                    acc = acc + u16_bytes(*exports_count);
                }
                assert(buff@ =~= b0 + acc);
                emit_all(exports, buff);
                proof {
                    acc = acc + encoded_all(exports@);
                }
                assert(buff@ =~= b0 + acc);
                put_u16(buff, *opens_count);
                proof {
                    acc = acc + u16_bytes(*opens_count);
                }
                assert(buff@ =~= b0 + acc);
                emit_all(opens, buff);
                proof {
                    acc = acc + encoded_all(opens@);
                }
                assert(buff@ =~= b0 + acc);
                put_u16(buff, *uses_count);
                proof {
                    acc = acc + u16_bytes(*uses_count);
                }
                assert(buff@ =~= b0 + acc);
                write_vec_u16_as_bytes(uses_index.as_slice(), buff);
                proof {
                    acc = acc + u16s_bytes(uses_index@);
                }
                assert(buff@ =~= b0 + acc);
                put_u16(buff, *provides_count);
                proof {
                    acc = acc + u16_bytes(*provides_count);
                }
                assert(buff@ =~= b0 + acc);
                emit_all(provides, buff);
                proof {
                    acc = acc + encoded_all(provides@);
                }
                assert(buff@ =~= b0 + acc);
                assert(attribute_bytes(attribute_view(self)) == acc);
            },
            _ => {},
        }
    }

    /// Appends the bytes of the `Record` attribute.
    fn emit_record(&self, buff: &mut Vec<u8>)
        requires
            self is Record,
        ensures
            final(buff)@ == old(buff)@ + attribute_bytes(attribute_view(self)),
        decreases self, 0nat,
    {
        let ghost b0 = buff@;
        match self {
            Attribute::Record { attribute_name_index, attribute_length, components_count, components } => {
                put_u16(buff, *attribute_name_index);
                put_u32(buff, *attribute_length);
                put_u16(buff, *components_count);
                emit_components(components, buff);
                assert(component_views(components@) =~= Seq::new(
                    components@.len(),
                    |j: int| if 0 <= j < components@.len() { component_view(&components@[j]) } else { arbitrary() },
                ));
                assert(attribute_view(self)->Record_components == component_views(components@));
                assert(buff@ =~= b0 + attribute_bytes(attribute_view(self)));
            },
            _ => {},
        }
    }
}

impl Attribute {
    /// Appends the attribute's bytes and returns their number.
    pub fn write(self, buff: &mut Vec<u8>) -> (n: usize)
        ensures
            final(buff)@ == old(buff)@ + attribute_bytes(self@),
            n == attribute_bytes(self@).len(),
    {
        let start = buff.len();
        self.emit(buff);
        buff.len() - start
    }

    /// The attribute's bytes in class-file form.
    pub fn to_bytes(self) -> (r: Vec<u8>)
        ensures
            r@ == attribute_bytes(self@),
    {
        let mut buff: Vec<u8> = Vec::new();
        self.emit(&mut buff);
        assert(buff@ =~= attribute_bytes(self@));
        buff
    }
}

} // verus!
