//! The DWARF encodings the engine understands: attribute names, node tags,
//! and attribute forms, each decoded from its numeric code.  A code outside
//! the known set is an explicit error so gaps in coverage stay visible.

use vstd::prelude::*;
use crate::ElfError;

verus! {

/// The DWARF attribute names, with a collective variant for the
/// vendor-defined range.
#[allow(non_camel_case_types)]
#[derive(Clone, Copy, Debug, Eq, PartialEq, Structural)]
pub enum AttributeName {
    DW_AT_sibling,
    DW_AT_location,
    DW_AT_name,
    DW_AT_ordering,
    DW_AT_byte_size,
    DW_AT_bit_offset,
    DW_AT_bit_size,
    DW_AT_stmt_list,
    DW_AT_low_pc,
    DW_AT_high_pc,
    DW_AT_language,
    DW_AT_discr,
    DW_AT_discr_value,
    DW_AT_visibility,
    DW_AT_import,
    DW_AT_string_length,
    DW_AT_common_reference,
    DW_AT_comp_dir,
    DW_AT_const_value,
    DW_AT_containing_type,
    DW_AT_default_value,
    DW_AT_inline,
    DW_AT_is_optional,
    DW_AT_lower_bound,
    DW_AT_producer,
    DW_AT_prototyped,
    DW_AT_return_addr,
    DW_AT_start_scope,
    DW_AT_bit_stride,
    DW_AT_upper_bound,
    DW_AT_abstract_origin,
    DW_AT_accessibility,
    DW_AT_address_class,
    DW_AT_artificial,
    DW_AT_base_types,
    DW_AT_calling_convention,
    DW_AT_count,
    DW_AT_data_member_location,
    DW_AT_decl_column,
    DW_AT_decl_file,
    DW_AT_decl_line,
    DW_AT_declaration,
    DW_AT_discr_list,
    DW_AT_encoding,
    DW_AT_external,
    DW_AT_frame_base,
    DW_AT_friend,
    DW_AT_identifier_case,
    DW_AT_macro_info,
    DW_AT_namelist_item,
    DW_AT_priority,
    DW_AT_segment,
    DW_AT_specification,
    DW_AT_static_link,
    DW_AT_type,
    DW_AT_use_location,
    DW_AT_variable_parameter,
    DW_AT_virtuality,
    DW_AT_vtable_elem_location,
    DW_AT_allocated,
    DW_AT_associated,
    DW_AT_data_location,
    DW_AT_byte_stride,
    DW_AT_entry_pc,
    DW_AT_use_UTF8,
    DW_AT_extension,
    DW_AT_ranges,
    DW_AT_trampoline,
    DW_AT_call_column,
    DW_AT_call_file,
    DW_AT_call_line,
    DW_AT_description,
    DW_AT_binary_scale,
    DW_AT_decimal_scale,
    DW_AT_small,
    DW_AT_decimal_sign,
    DW_AT_digit_count,
    DW_AT_picture_string,
    DW_AT_mutable,
    DW_AT_threads_scaled,
    DW_AT_explicit,
    DW_AT_object_pointer,
    DW_AT_endianity,
    DW_AT_elemental,
    DW_AT_pure,
    DW_AT_recursive,
    DW_AT_signature,
    DW_AT_main_subprogram,
    DW_AT_data_bit_offset,
    DW_AT_const_expr,
    DW_AT_enum_class,
    DW_AT_linkage_name,
    DW_AT_GNU_all_tail_call_sites,
    DW_AT_GNU_all_call_sites,
    DW_AT_user,
}

/// Which attribute name each code decodes to; `None` for unknown codes.
pub open spec fn spec_attribute_name(value: u64) -> Option<AttributeName> {
    if value == 0x01 {
        Some(AttributeName::DW_AT_sibling)
    } else if value == 0x02 {
        Some(AttributeName::DW_AT_location)
    } else if value == 0x03 {
        Some(AttributeName::DW_AT_name)
    } else if value == 0x09 {
        Some(AttributeName::DW_AT_ordering)
    } else if value == 0x0b {
        Some(AttributeName::DW_AT_byte_size)
    } else if value == 0x0c {
        Some(AttributeName::DW_AT_bit_offset)
    } else if value == 0x0d {
        Some(AttributeName::DW_AT_bit_size)
    } else if value == 0x10 {
        Some(AttributeName::DW_AT_stmt_list)
    } else if value == 0x11 {
        Some(AttributeName::DW_AT_low_pc)
    } else if value == 0x12 {
        Some(AttributeName::DW_AT_high_pc)
    } else if value == 0x13 {
        Some(AttributeName::DW_AT_language)
    } else if value == 0x15 {
        Some(AttributeName::DW_AT_discr)
    } else if value == 0x16 {
        Some(AttributeName::DW_AT_discr_value)
    } else if value == 0x17 {
        Some(AttributeName::DW_AT_visibility)
    } else if value == 0x18 {
        Some(AttributeName::DW_AT_import)
    } else if value == 0x19 {
        Some(AttributeName::DW_AT_string_length)
    } else if value == 0x1a {
        Some(AttributeName::DW_AT_common_reference)
    } else if value == 0x1b {
        Some(AttributeName::DW_AT_comp_dir)
    } else if value == 0x1c {
        Some(AttributeName::DW_AT_const_value)
    } else if value == 0x1d {
        Some(AttributeName::DW_AT_containing_type)
    } else if value == 0x1e {
        Some(AttributeName::DW_AT_default_value)
    } else if value == 0x20 {
        Some(AttributeName::DW_AT_inline)
    } else if value == 0x21 {
        Some(AttributeName::DW_AT_is_optional)
    } else if value == 0x22 {
        Some(AttributeName::DW_AT_lower_bound)
    } else if value == 0x25 {
        Some(AttributeName::DW_AT_producer)
    } else if value == 0x27 {
        Some(AttributeName::DW_AT_prototyped)
    } else if value == 0x2a {
        Some(AttributeName::DW_AT_return_addr)
    } else if value == 0x2c {
        Some(AttributeName::DW_AT_start_scope)
    } else if value == 0x2e {
        Some(AttributeName::DW_AT_bit_stride)
    } else if value == 0x2f {
        Some(AttributeName::DW_AT_upper_bound)
    } else if value == 0x31 {
        Some(AttributeName::DW_AT_abstract_origin)
    } else if value == 0x32 {
        Some(AttributeName::DW_AT_accessibility)
    } else if value == 0x33 {
        Some(AttributeName::DW_AT_address_class)
    } else if value == 0x34 {
        Some(AttributeName::DW_AT_artificial)
    } else if value == 0x35 {
        Some(AttributeName::DW_AT_base_types)
    } else if value == 0x36 {
        Some(AttributeName::DW_AT_calling_convention)
    } else if value == 0x37 {
        Some(AttributeName::DW_AT_count)
    } else if value == 0x38 {
        Some(AttributeName::DW_AT_data_member_location)
    } else if value == 0x39 {
        Some(AttributeName::DW_AT_decl_column)
    } else if value == 0x3a {
        Some(AttributeName::DW_AT_decl_file)
    } else if value == 0x3b {
        Some(AttributeName::DW_AT_decl_line)
    } else if value == 0x3c {
        Some(AttributeName::DW_AT_declaration)
    } else if value == 0x3d {
        Some(AttributeName::DW_AT_discr_list)
    } else if value == 0x3e {
        Some(AttributeName::DW_AT_encoding)
    } else if value == 0x3f {
        Some(AttributeName::DW_AT_external)
    } else if value == 0x40 {
        Some(AttributeName::DW_AT_frame_base)
    } else if value == 0x41 {
        Some(AttributeName::DW_AT_friend)
    } else if value == 0x42 {
        Some(AttributeName::DW_AT_identifier_case)
    } else if value == 0x43 {
        Some(AttributeName::DW_AT_macro_info)
    } else if value == 0x44 {
        Some(AttributeName::DW_AT_namelist_item)
    } else if value == 0x45 {
        Some(AttributeName::DW_AT_priority)
    } else if value == 0x46 {
        Some(AttributeName::DW_AT_segment)
    } else if value == 0x47 {
        Some(AttributeName::DW_AT_specification)
    } else if value == 0x48 {
        Some(AttributeName::DW_AT_static_link)
    } else if value == 0x49 {
        Some(AttributeName::DW_AT_type)
    } else if value == 0x4a {
        Some(AttributeName::DW_AT_use_location)
    } else if value == 0x4b {
        Some(AttributeName::DW_AT_variable_parameter)
    } else if value == 0x4c {
        Some(AttributeName::DW_AT_virtuality)
    } else if value == 0x4d {
        Some(AttributeName::DW_AT_vtable_elem_location)
    } else if value == 0x4e {
        Some(AttributeName::DW_AT_allocated)
    } else if value == 0x4f {
        Some(AttributeName::DW_AT_associated)
    } else if value == 0x50 {
        Some(AttributeName::DW_AT_data_location)
    } else if value == 0x51 {
        Some(AttributeName::DW_AT_byte_stride)
    } else if value == 0x52 {
        Some(AttributeName::DW_AT_entry_pc)
    } else if value == 0x53 {
        Some(AttributeName::DW_AT_use_UTF8)
    } else if value == 0x54 {
        Some(AttributeName::DW_AT_extension)
    } else if value == 0x55 {
        Some(AttributeName::DW_AT_ranges)
    } else if value == 0x56 {
        Some(AttributeName::DW_AT_trampoline)
    } else if value == 0x57 {
        Some(AttributeName::DW_AT_call_column)
    } else if value == 0x58 {
        Some(AttributeName::DW_AT_call_file)
    } else if value == 0x59 {
        Some(AttributeName::DW_AT_call_line)
    } else if value == 0x5a {
        Some(AttributeName::DW_AT_description)
    } else if value == 0x5b {
        Some(AttributeName::DW_AT_binary_scale)
    } else if value == 0x5c {
        Some(AttributeName::DW_AT_decimal_scale)
    } else if value == 0x5d {
        Some(AttributeName::DW_AT_small)
    } else if value == 0x5e {
        Some(AttributeName::DW_AT_decimal_sign)
    } else if value == 0x5f {
        Some(AttributeName::DW_AT_digit_count)
    } else if value == 0x60 {
        Some(AttributeName::DW_AT_picture_string)
    } else if value == 0x61 {
        Some(AttributeName::DW_AT_mutable)
    } else if value == 0x62 {
        Some(AttributeName::DW_AT_threads_scaled)
    } else if value == 0x63 {
        Some(AttributeName::DW_AT_explicit)
    } else if value == 0x64 {
        Some(AttributeName::DW_AT_object_pointer)
    } else if value == 0x65 {
        Some(AttributeName::DW_AT_endianity)
    } else if value == 0x66 {
        Some(AttributeName::DW_AT_elemental)
    } else if value == 0x67 {
        Some(AttributeName::DW_AT_pure)
    } else if value == 0x68 {
        Some(AttributeName::DW_AT_recursive)
    } else if value == 0x69 {
        Some(AttributeName::DW_AT_signature)
    } else if value == 0x6a {
        Some(AttributeName::DW_AT_main_subprogram)
    } else if value == 0x6b {
        Some(AttributeName::DW_AT_data_bit_offset)
    } else if value == 0x6c {
        Some(AttributeName::DW_AT_const_expr)
    } else if value == 0x6d {
        Some(AttributeName::DW_AT_enum_class)
    } else if value == 0x6e {
        Some(AttributeName::DW_AT_linkage_name)
    } else if value == 0x2116 {
        Some(AttributeName::DW_AT_GNU_all_tail_call_sites)
    } else if value == 0x2117 {
        Some(AttributeName::DW_AT_GNU_all_call_sites)
    } else if 0x2000 <= value < 0x3fff {
        Some(AttributeName::DW_AT_user)
    } else {
        None
    }
}

/// The DWARF node tags, with a collective variant for the vendor-defined
/// range.
#[allow(non_camel_case_types)]
#[derive(Clone, Copy, Debug, Eq, PartialEq, Structural)]
pub enum Tag {
    DW_TAG_array_type,
    DW_TAG_class_type,
    DW_TAG_entry_point,
    DW_TAG_enumeration_type,
    DW_TAG_formal_parameter,
    DW_TAG_imported_declaration,
    DW_TAG_label,
    DW_TAG_lexical_block,
    DW_TAG_member,
    DW_TAG_pointer_type,
    DW_TAG_reference_type,
    DW_TAG_compile_unit,
    DW_TAG_string_type,
    DW_TAG_structure_type,
    DW_TAG_subroutine_type,
    DW_TAG_typedef,
    DW_TAG_union_type,
    DW_TAG_unspecified_parameters,
    DW_TAG_variant,
    DW_TAG_common_block,
    DW_TAG_common_inclusion,
    DW_TAG_inheritance,
    DW_TAG_inlined_subroutine,
    DW_TAG_module,
    DW_TAG_ptr_to_member_type,
    DW_TAG_set_type,
    DW_TAG_subrange_type,
    DW_TAG_with_stmt,
    DW_TAG_access_declaration,
    DW_TAG_base_type,
    DW_TAG_catch_block,
    DW_TAG_const_type,
    DW_TAG_constant,
    DW_TAG_enumerator,
    DW_TAG_file_type,
    DW_TAG_friend,
    DW_TAG_namelist,
    DW_TAG_namelist_item,
    DW_TAG_packed_type,
    DW_TAG_subprogram,
    DW_TAG_template_type_parameter,
    DW_TAG_template_value_parameter,
    DW_TAG_thrown_type,
    DW_TAG_try_block,
    DW_TAG_variant_part,
    DW_TAG_variable,
    DW_TAG_volatile_type,
    DW_TAG_dwarf_procedure,
    DW_TAG_restrict_type,
    DW_TAG_interface_type,
    DW_TAG_namespace,
    DW_TAG_imported_module,
    DW_TAG_unspecified_type,
    DW_TAG_partial_unit,
    DW_TAG_imported_unit,
    DW_TAG_condition,
    DW_TAG_shared_type,
    DW_TAG_type_unit,
    DW_TAG_rvalue_reference_type,
    DW_TAG_template_alias,
    DW_TAG_user,
}

/// Which tag each code decodes to; `None` for unknown codes.
pub open spec fn spec_tag(value: u64) -> Option<Tag> {
    if value == 0x01 {
        Some(Tag::DW_TAG_array_type)
    } else if value == 0x02 {
        Some(Tag::DW_TAG_class_type)
    } else if value == 0x03 {
        Some(Tag::DW_TAG_entry_point)
    } else if value == 0x04 {
        Some(Tag::DW_TAG_enumeration_type)
    } else if value == 0x05 {
        Some(Tag::DW_TAG_formal_parameter)
    } else if value == 0x08 {
        Some(Tag::DW_TAG_imported_declaration)
    } else if value == 0x0a {
        Some(Tag::DW_TAG_label)
    } else if value == 0x0b {
        Some(Tag::DW_TAG_lexical_block)
    } else if value == 0x0d {
        Some(Tag::DW_TAG_member)
    } else if value == 0x0f {
        Some(Tag::DW_TAG_pointer_type)
    } else if value == 0x10 {
        Some(Tag::DW_TAG_reference_type)
    } else if value == 0x11 {
        Some(Tag::DW_TAG_compile_unit)
    } else if value == 0x12 {
        Some(Tag::DW_TAG_string_type)
    } else if value == 0x13 {
        Some(Tag::DW_TAG_structure_type)
    } else if value == 0x15 {
        Some(Tag::DW_TAG_subroutine_type)
    } else if value == 0x16 {
        Some(Tag::DW_TAG_typedef)
    } else if value == 0x17 {
        Some(Tag::DW_TAG_union_type)
    } else if value == 0x18 {
        Some(Tag::DW_TAG_unspecified_parameters)
    } else if value == 0x19 {
        Some(Tag::DW_TAG_variant)
    } else if value == 0x1a {
        Some(Tag::DW_TAG_common_block)
    } else if value == 0x1b {
        Some(Tag::DW_TAG_common_inclusion)
    } else if value == 0x1c {
        Some(Tag::DW_TAG_inheritance)
    } else if value == 0x1d {
        Some(Tag::DW_TAG_inlined_subroutine)
    } else if value == 0x1e {
        Some(Tag::DW_TAG_module)
    } else if value == 0x1f {
        Some(Tag::DW_TAG_ptr_to_member_type)
    } else if value == 0x20 {
        Some(Tag::DW_TAG_set_type)
    } else if value == 0x21 {
        Some(Tag::DW_TAG_subrange_type)
    } else if value == 0x22 {
        Some(Tag::DW_TAG_with_stmt)
    } else if value == 0x23 {
        Some(Tag::DW_TAG_access_declaration)
    } else if value == 0x24 {
        Some(Tag::DW_TAG_base_type)
    } else if value == 0x25 {
        Some(Tag::DW_TAG_catch_block)
    } else if value == 0x26 {
        Some(Tag::DW_TAG_const_type)
    } else if value == 0x27 {
        Some(Tag::DW_TAG_constant)
    } else if value == 0x28 {
        Some(Tag::DW_TAG_enumerator)
    } else if value == 0x29 {
        Some(Tag::DW_TAG_file_type)
    } else if value == 0x2a {
        Some(Tag::DW_TAG_friend)
    } else if value == 0x2b {
        Some(Tag::DW_TAG_namelist)
    } else if value == 0x2c {
        Some(Tag::DW_TAG_namelist_item)
    } else if value == 0x2d {
        Some(Tag::DW_TAG_packed_type)
    } else if value == 0x2e {
        Some(Tag::DW_TAG_subprogram)
    } else if value == 0x2f {
        Some(Tag::DW_TAG_template_type_parameter)
    } else if value == 0x30 {
        Some(Tag::DW_TAG_template_value_parameter)
    } else if value == 0x31 {
        Some(Tag::DW_TAG_thrown_type)
    } else if value == 0x32 {
        Some(Tag::DW_TAG_try_block)
    } else if value == 0x33 {
        Some(Tag::DW_TAG_variant_part)
    } else if value == 0x34 {
        Some(Tag::DW_TAG_variable)
    } else if value == 0x35 {
        Some(Tag::DW_TAG_volatile_type)
    } else if value == 0x36 {
        Some(Tag::DW_TAG_dwarf_procedure)
    } else if value == 0x37 {
        Some(Tag::DW_TAG_restrict_type)
    } else if value == 0x38 {
        Some(Tag::DW_TAG_interface_type)
    } else if value == 0x39 {
        Some(Tag::DW_TAG_namespace)
    } else if value == 0x3a {
        Some(Tag::DW_TAG_imported_module)
    } else if value == 0x3b {
        Some(Tag::DW_TAG_unspecified_type)
    } else if value == 0x3c {
        Some(Tag::DW_TAG_partial_unit)
    } else if value == 0x3d {
        Some(Tag::DW_TAG_imported_unit)
    } else if value == 0x3f {
        Some(Tag::DW_TAG_condition)
    } else if value == 0x40 {
        Some(Tag::DW_TAG_shared_type)
    } else if value == 0x41 {
        Some(Tag::DW_TAG_type_unit)
    } else if value == 0x42 {
        Some(Tag::DW_TAG_rvalue_reference_type)
    } else if value == 0x43 {
        Some(Tag::DW_TAG_template_alias)
    } else if 0x4080 <= value < 0xffff {
        Some(Tag::DW_TAG_user)
    } else {
        None
    }
}

/// How an attribute value is encoded in `.debug_info`.
#[allow(non_camel_case_types)]
#[derive(Clone, Copy, Debug, Eq, PartialEq, Structural)]
pub enum FormEncoding {
    DW_FORM_addr,
    DW_FORM_block2,
    DW_FORM_block4,
    DW_FORM_data2,
    DW_FORM_data4,
    DW_FORM_data8,
    DW_FORM_string,
    DW_FORM_block,
    DW_FORM_block1,
    DW_FORM_data1,
    DW_FORM_flag,
    DW_FORM_sdata,
    DW_FORM_strp,
    DW_FORM_udata,
    DW_FORM_ref_addr,
    DW_FORM_ref1,
    DW_FORM_ref2,
    DW_FORM_ref4,
    DW_FORM_ref8,
    DW_FORM_ref_udata,
    DW_FORM_indirect,
    DW_FORM_sec_offset,
    DW_FORM_exprloc,
    DW_FORM_flag_present,
}

/// Which form each code decodes to; `None` for unknown codes.
pub open spec fn spec_form(value: u64) -> Option<FormEncoding> {
    if value == 0x01 {
        Some(FormEncoding::DW_FORM_addr)
    } else if value == 0x03 {
        Some(FormEncoding::DW_FORM_block2)
    } else if value == 0x04 {
        Some(FormEncoding::DW_FORM_block4)
    } else if value == 0x05 {
        Some(FormEncoding::DW_FORM_data2)
    } else if value == 0x06 {
        Some(FormEncoding::DW_FORM_data4)
    } else if value == 0x07 {
        Some(FormEncoding::DW_FORM_data8)
    } else if value == 0x08 {
        Some(FormEncoding::DW_FORM_string)
    } else if value == 0x09 {
        Some(FormEncoding::DW_FORM_block)
    } else if value == 0x0a {
        Some(FormEncoding::DW_FORM_block1)
    } else if value == 0x0b {
        Some(FormEncoding::DW_FORM_data1)
    } else if value == 0x0c {
        Some(FormEncoding::DW_FORM_flag)
    } else if value == 0x0d {
        Some(FormEncoding::DW_FORM_sdata)
    } else if value == 0x0e {
        Some(FormEncoding::DW_FORM_strp)
    } else if value == 0x0f {
        Some(FormEncoding::DW_FORM_udata)
    } else if value == 0x10 {
        Some(FormEncoding::DW_FORM_ref_addr)
    } else if value == 0x11 {
        Some(FormEncoding::DW_FORM_ref1)
    } else if value == 0x12 {
        Some(FormEncoding::DW_FORM_ref2)
    } else if value == 0x13 {
        Some(FormEncoding::DW_FORM_ref4)
    } else if value == 0x14 {
        Some(FormEncoding::DW_FORM_ref8)
    } else if value == 0x15 {
        Some(FormEncoding::DW_FORM_ref_udata)
    } else if value == 0x16 {
        Some(FormEncoding::DW_FORM_indirect)
    } else if value == 0x17 {
        Some(FormEncoding::DW_FORM_sec_offset)
    } else if value == 0x18 {
        Some(FormEncoding::DW_FORM_exprloc)
    } else if value == 0x19 {
        Some(FormEncoding::DW_FORM_flag_present)
    } else {
        None
    }
}

impl AttributeName {
    /// Decodes an attribute-name code; an unknown code is an explicit
    /// error.
    pub fn from_u64(value: u64) -> (r: Result<Self, ElfError>)
        ensures
            r is Ok <==> spec_attribute_name(value) is Some,
            r matches Ok(v) ==> Some(v) == spec_attribute_name(value),
            r is Err ==> r->Err_0 == ElfError::UnknownAttributeName(value),
    {
        match value {
            0x01 => Ok(AttributeName::DW_AT_sibling),
            0x02 => Ok(AttributeName::DW_AT_location),
            0x03 => Ok(AttributeName::DW_AT_name),
            0x09 => Ok(AttributeName::DW_AT_ordering),
            0x0b => Ok(AttributeName::DW_AT_byte_size),
            0x0c => Ok(AttributeName::DW_AT_bit_offset),
            0x0d => Ok(AttributeName::DW_AT_bit_size),
            0x10 => Ok(AttributeName::DW_AT_stmt_list),
            0x11 => Ok(AttributeName::DW_AT_low_pc),
            0x12 => Ok(AttributeName::DW_AT_high_pc),
            0x13 => Ok(AttributeName::DW_AT_language),
            0x15 => Ok(AttributeName::DW_AT_discr),
            0x16 => Ok(AttributeName::DW_AT_discr_value),
            0x17 => Ok(AttributeName::DW_AT_visibility),
            0x18 => Ok(AttributeName::DW_AT_import),
            0x19 => Ok(AttributeName::DW_AT_string_length),
            0x1a => Ok(AttributeName::DW_AT_common_reference),
            0x1b => Ok(AttributeName::DW_AT_comp_dir),
            0x1c => Ok(AttributeName::DW_AT_const_value),
            0x1d => Ok(AttributeName::DW_AT_containing_type),
            0x1e => Ok(AttributeName::DW_AT_default_value),
            0x20 => Ok(AttributeName::DW_AT_inline),
            0x21 => Ok(AttributeName::DW_AT_is_optional),
            0x22 => Ok(AttributeName::DW_AT_lower_bound),
            0x25 => Ok(AttributeName::DW_AT_producer),
            0x27 => Ok(AttributeName::DW_AT_prototyped),
            0x2a => Ok(AttributeName::DW_AT_return_addr),
            0x2c => Ok(AttributeName::DW_AT_start_scope),
            0x2e => Ok(AttributeName::DW_AT_bit_stride),
            0x2f => Ok(AttributeName::DW_AT_upper_bound),
            0x31 => Ok(AttributeName::DW_AT_abstract_origin),
            0x32 => Ok(AttributeName::DW_AT_accessibility),
            0x33 => Ok(AttributeName::DW_AT_address_class),
            0x34 => Ok(AttributeName::DW_AT_artificial),
            0x35 => Ok(AttributeName::DW_AT_base_types),
            0x36 => Ok(AttributeName::DW_AT_calling_convention),
            0x37 => Ok(AttributeName::DW_AT_count),
            0x38 => Ok(AttributeName::DW_AT_data_member_location),
            0x39 => Ok(AttributeName::DW_AT_decl_column),
            0x3a => Ok(AttributeName::DW_AT_decl_file),
            0x3b => Ok(AttributeName::DW_AT_decl_line),
            0x3c => Ok(AttributeName::DW_AT_declaration),
            0x3d => Ok(AttributeName::DW_AT_discr_list),
            0x3e => Ok(AttributeName::DW_AT_encoding),
            0x3f => Ok(AttributeName::DW_AT_external),
            0x40 => Ok(AttributeName::DW_AT_frame_base),
            0x41 => Ok(AttributeName::DW_AT_friend),
            0x42 => Ok(AttributeName::DW_AT_identifier_case),
            0x43 => Ok(AttributeName::DW_AT_macro_info),
            0x44 => Ok(AttributeName::DW_AT_namelist_item),
            0x45 => Ok(AttributeName::DW_AT_priority),
            0x46 => Ok(AttributeName::DW_AT_segment),
            0x47 => Ok(AttributeName::DW_AT_specification),
            0x48 => Ok(AttributeName::DW_AT_static_link),
            0x49 => Ok(AttributeName::DW_AT_type),
            0x4a => Ok(AttributeName::DW_AT_use_location),
            0x4b => Ok(AttributeName::DW_AT_variable_parameter),
            0x4c => Ok(AttributeName::DW_AT_virtuality),
            0x4d => Ok(AttributeName::DW_AT_vtable_elem_location),
            0x4e => Ok(AttributeName::DW_AT_allocated),
            0x4f => Ok(AttributeName::DW_AT_associated),
            0x50 => Ok(AttributeName::DW_AT_data_location),
            0x51 => Ok(AttributeName::DW_AT_byte_stride),
            0x52 => Ok(AttributeName::DW_AT_entry_pc),
            0x53 => Ok(AttributeName::DW_AT_use_UTF8),
            0x54 => Ok(AttributeName::DW_AT_extension),
            0x55 => Ok(AttributeName::DW_AT_ranges),
            0x56 => Ok(AttributeName::DW_AT_trampoline),
            0x57 => Ok(AttributeName::DW_AT_call_column),
            0x58 => Ok(AttributeName::DW_AT_call_file),
            0x59 => Ok(AttributeName::DW_AT_call_line),
            0x5a => Ok(AttributeName::DW_AT_description),
            0x5b => Ok(AttributeName::DW_AT_binary_scale),
            0x5c => Ok(AttributeName::DW_AT_decimal_scale),
            0x5d => Ok(AttributeName::DW_AT_small),
            0x5e => Ok(AttributeName::DW_AT_decimal_sign),
            0x5f => Ok(AttributeName::DW_AT_digit_count),
            0x60 => Ok(AttributeName::DW_AT_picture_string),
            0x61 => Ok(AttributeName::DW_AT_mutable),
            0x62 => Ok(AttributeName::DW_AT_threads_scaled),
            0x63 => Ok(AttributeName::DW_AT_explicit),
            0x64 => Ok(AttributeName::DW_AT_object_pointer),
            0x65 => Ok(AttributeName::DW_AT_endianity),
            0x66 => Ok(AttributeName::DW_AT_elemental),
            0x67 => Ok(AttributeName::DW_AT_pure),
            0x68 => Ok(AttributeName::DW_AT_recursive),
            0x69 => Ok(AttributeName::DW_AT_signature),
            0x6a => Ok(AttributeName::DW_AT_main_subprogram),
            0x6b => Ok(AttributeName::DW_AT_data_bit_offset),
            0x6c => Ok(AttributeName::DW_AT_const_expr),
            0x6d => Ok(AttributeName::DW_AT_enum_class),
            0x6e => Ok(AttributeName::DW_AT_linkage_name),
            0x2116 => Ok(AttributeName::DW_AT_GNU_all_tail_call_sites),
            0x2117 => Ok(AttributeName::DW_AT_GNU_all_call_sites),
            _ => {
                if 0x2000 <= value && value < 0x3fff {
                    Ok(AttributeName::DW_AT_user)
                } else {
                    Err(ElfError::UnknownAttributeName(value))
                }
            },
        }
    }
}

impl Tag {
    /// Decodes a tag code; an unknown code is an explicit error.
    pub fn from_u64(value: u64) -> (r: Result<Self, ElfError>)
        ensures
            r is Ok <==> spec_tag(value) is Some,
            r matches Ok(v) ==> Some(v) == spec_tag(value),
            r is Err ==> r->Err_0 == ElfError::UnknownTag(value),
    {
        match value {
            0x01 => Ok(Tag::DW_TAG_array_type),
            0x02 => Ok(Tag::DW_TAG_class_type),
            0x03 => Ok(Tag::DW_TAG_entry_point),
            0x04 => Ok(Tag::DW_TAG_enumeration_type),
            0x05 => Ok(Tag::DW_TAG_formal_parameter),
            0x08 => Ok(Tag::DW_TAG_imported_declaration),
            0x0a => Ok(Tag::DW_TAG_label),
            0x0b => Ok(Tag::DW_TAG_lexical_block),
            0x0d => Ok(Tag::DW_TAG_member),
            0x0f => Ok(Tag::DW_TAG_pointer_type),
            0x10 => Ok(Tag::DW_TAG_reference_type),
            0x11 => Ok(Tag::DW_TAG_compile_unit),
            0x12 => Ok(Tag::DW_TAG_string_type),
            0x13 => Ok(Tag::DW_TAG_structure_type),
            0x15 => Ok(Tag::DW_TAG_subroutine_type),
            0x16 => Ok(Tag::DW_TAG_typedef),
            0x17 => Ok(Tag::DW_TAG_union_type),
            0x18 => Ok(Tag::DW_TAG_unspecified_parameters),
            0x19 => Ok(Tag::DW_TAG_variant),
            0x1a => Ok(Tag::DW_TAG_common_block),
            0x1b => Ok(Tag::DW_TAG_common_inclusion),
            0x1c => Ok(Tag::DW_TAG_inheritance),
            0x1d => Ok(Tag::DW_TAG_inlined_subroutine),
            0x1e => Ok(Tag::DW_TAG_module),
            0x1f => Ok(Tag::DW_TAG_ptr_to_member_type),
            0x20 => Ok(Tag::DW_TAG_set_type),
            0x21 => Ok(Tag::DW_TAG_subrange_type),
            0x22 => Ok(Tag::DW_TAG_with_stmt),
            0x23 => Ok(Tag::DW_TAG_access_declaration),
            0x24 => Ok(Tag::DW_TAG_base_type),
            0x25 => Ok(Tag::DW_TAG_catch_block),
            0x26 => Ok(Tag::DW_TAG_const_type),
            0x27 => Ok(Tag::DW_TAG_constant),
            0x28 => Ok(Tag::DW_TAG_enumerator),
            0x29 => Ok(Tag::DW_TAG_file_type),
            0x2a => Ok(Tag::DW_TAG_friend),
            0x2b => Ok(Tag::DW_TAG_namelist),
            0x2c => Ok(Tag::DW_TAG_namelist_item),
            0x2d => Ok(Tag::DW_TAG_packed_type),
            0x2e => Ok(Tag::DW_TAG_subprogram),
            0x2f => Ok(Tag::DW_TAG_template_type_parameter),
            0x30 => Ok(Tag::DW_TAG_template_value_parameter),
            0x31 => Ok(Tag::DW_TAG_thrown_type),
            0x32 => Ok(Tag::DW_TAG_try_block),
            0x33 => Ok(Tag::DW_TAG_variant_part),
            0x34 => Ok(Tag::DW_TAG_variable),
            0x35 => Ok(Tag::DW_TAG_volatile_type),
            0x36 => Ok(Tag::DW_TAG_dwarf_procedure),
            0x37 => Ok(Tag::DW_TAG_restrict_type),
            0x38 => Ok(Tag::DW_TAG_interface_type),
            0x39 => Ok(Tag::DW_TAG_namespace),
            0x3a => Ok(Tag::DW_TAG_imported_module),
            0x3b => Ok(Tag::DW_TAG_unspecified_type),
            0x3c => Ok(Tag::DW_TAG_partial_unit),
            0x3d => Ok(Tag::DW_TAG_imported_unit),
            0x3f => Ok(Tag::DW_TAG_condition),
            0x40 => Ok(Tag::DW_TAG_shared_type),
            0x41 => Ok(Tag::DW_TAG_type_unit),
            0x42 => Ok(Tag::DW_TAG_rvalue_reference_type),
            0x43 => Ok(Tag::DW_TAG_template_alias),
            _ => {
                if 0x4080 <= value && value < 0xffff {
                    Ok(Tag::DW_TAG_user)
                } else {
                    Err(ElfError::UnknownTag(value))
                }
            },
        }
    }
}

impl FormEncoding {
    /// Decodes a form code; an unknown code is an explicit error.
    pub fn from_u64(value: u64) -> (r: Result<Self, ElfError>)
        ensures
            r is Ok <==> spec_form(value) is Some,
            r matches Ok(v) ==> Some(v) == spec_form(value),
            r is Err ==> r->Err_0 == ElfError::UnknownForm(value),
    {
        match value {
            0x01 => Ok(FormEncoding::DW_FORM_addr),
            0x03 => Ok(FormEncoding::DW_FORM_block2),
            0x04 => Ok(FormEncoding::DW_FORM_block4),
            0x05 => Ok(FormEncoding::DW_FORM_data2),
            0x06 => Ok(FormEncoding::DW_FORM_data4),
            0x07 => Ok(FormEncoding::DW_FORM_data8),
            0x08 => Ok(FormEncoding::DW_FORM_string),
            0x09 => Ok(FormEncoding::DW_FORM_block),
            0x0a => Ok(FormEncoding::DW_FORM_block1),
            0x0b => Ok(FormEncoding::DW_FORM_data1),
            0x0c => Ok(FormEncoding::DW_FORM_flag),
            0x0d => Ok(FormEncoding::DW_FORM_sdata),
            0x0e => Ok(FormEncoding::DW_FORM_strp),
            0x0f => Ok(FormEncoding::DW_FORM_udata),
            0x10 => Ok(FormEncoding::DW_FORM_ref_addr),
            0x11 => Ok(FormEncoding::DW_FORM_ref1),
            0x12 => Ok(FormEncoding::DW_FORM_ref2),
            0x13 => Ok(FormEncoding::DW_FORM_ref4),
            0x14 => Ok(FormEncoding::DW_FORM_ref8),
            0x15 => Ok(FormEncoding::DW_FORM_ref_udata),
            0x16 => Ok(FormEncoding::DW_FORM_indirect),
            0x17 => Ok(FormEncoding::DW_FORM_sec_offset),
            0x18 => Ok(FormEncoding::DW_FORM_exprloc),
            0x19 => Ok(FormEncoding::DW_FORM_flag_present),
            _ => Err(ElfError::UnknownForm(value)),
        }
    }
}

} // verus!
