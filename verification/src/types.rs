//! The recursive type-tree decoder over `.debug_info`.
//!
//! A node's shape is declared by its abbreviation: a LEB128 code selects
//! the abbreviation (zero ends the current sibling list), each attribute
//! is decoded according to its declared form, and children follow exactly
//! when the abbreviation says so.  An attribute whose (name, form) pair
//! has no decoder yields an explicit error carrying both identifiers, and
//! the walk still returns everything decoded before the error.

use vstd::prelude::*;
use crate::ElfError;
use crate::abbrev::Abbreviation;
use crate::dwarf::{AttributeName, FormEncoding};
use crate::elf_file::ElfFile;
use crate::ranges::Offset;
use crate::reader::{Reader, Stream};

verus! {

/// One decoded node: its tag, its attributes, and its child nodes.
pub struct Type {
    pub tag: crate::dwarf::Tag,
    pub attrs: Vec<Attribute>,
    pub children: Vec<Type>,
}

/// Where a location attribute points.
#[derive(Clone, Copy, Debug)]
pub enum TypeLoc {
    /// A DWARF expression: its position in the file and its length.
    ExprLoc(Offset, u64),
    /// An offset into the location-list section.
    LocListPtr(u64),
}

/// A decoded attribute value.  Only the attributes the engine needs for
/// name, type, and line metadata have decoders; the others are explicit
/// decode errors rather than silently skipped bytes.
#[allow(non_camel_case_types)]
pub enum Attribute {
    DW_AT_sibling(u64),
    DW_AT_location(TypeLoc),
    DW_AT_name(String),
    DW_AT_byte_size(u32),
    DW_AT_stmt_list(u32),
    DW_AT_low_pc(u64),
    DW_AT_high_pc(u64),
    DW_AT_language(u16),
    DW_AT_comp_dir(String),
    DW_AT_producer(String),
    DW_AT_prototyped(bool),
    DW_AT_data_member_location(TypeLoc),
    DW_AT_decl_column(u32),
    DW_AT_decl_file(u32),
    DW_AT_decl_line(u32),
    DW_AT_declaration(bool),
    DW_AT_encoding(u8),
    DW_AT_external(bool),
    DW_AT_frame_base(TypeLoc),
    DW_AT_type(u64),
    DW_AT_GNU_all_tail_call_sites(bool),
    DW_AT_GNU_all_call_sites(bool),
}

/// A decoded node answers to some abbreviation of the table: its tag is
/// that abbreviation's tag, its attributes answer for the abbreviation's
/// attribute names in order, it has children only when the abbreviation
/// declares them, and every child answers to the table in turn.
pub open spec fn type_node_wf(t: Type, abbrevs: Seq<Abbreviation>) -> bool
    decreases t,
{
    &&& (exists|c: int|
        0 <= c < abbrevs.len() && {
            &&& t.tag == (#[trigger] abbrevs[c]).tag
            &&& t.attrs@.len() == abbrevs[c].attrs@.len()
            &&& (forall|k: int|
                0 <= k < t.attrs@.len() ==> attr_name_of(#[trigger] t.attrs@[k])
                    == abbrevs[c].attrs@[k].name)
            &&& (!abbrevs[c].has_children ==> t.children@.len() == 0)
        })
    &&& (forall|k: int|
        0 <= k < t.children@.len() ==> type_node_wf(#[trigger] t.children@[k], abbrevs))
}

/// The attribute name a decoded attribute answers for.
pub open spec fn attr_name_of(a: Attribute) -> AttributeName {
    match a {
        Attribute::DW_AT_sibling(_) => AttributeName::DW_AT_sibling,
        Attribute::DW_AT_location(_) => AttributeName::DW_AT_location,
        Attribute::DW_AT_name(_) => AttributeName::DW_AT_name,
        Attribute::DW_AT_byte_size(_) => AttributeName::DW_AT_byte_size,
        Attribute::DW_AT_stmt_list(_) => AttributeName::DW_AT_stmt_list,
        Attribute::DW_AT_low_pc(_) => AttributeName::DW_AT_low_pc,
        Attribute::DW_AT_high_pc(_) => AttributeName::DW_AT_high_pc,
        Attribute::DW_AT_language(_) => AttributeName::DW_AT_language,
        Attribute::DW_AT_comp_dir(_) => AttributeName::DW_AT_comp_dir,
        Attribute::DW_AT_producer(_) => AttributeName::DW_AT_producer,
        Attribute::DW_AT_prototyped(_) => AttributeName::DW_AT_prototyped,
        Attribute::DW_AT_data_member_location(_) => AttributeName::DW_AT_data_member_location,
        Attribute::DW_AT_decl_column(_) => AttributeName::DW_AT_decl_column,
        Attribute::DW_AT_decl_file(_) => AttributeName::DW_AT_decl_file,
        Attribute::DW_AT_decl_line(_) => AttributeName::DW_AT_decl_line,
        Attribute::DW_AT_declaration(_) => AttributeName::DW_AT_declaration,
        Attribute::DW_AT_encoding(_) => AttributeName::DW_AT_encoding,
        Attribute::DW_AT_external(_) => AttributeName::DW_AT_external,
        Attribute::DW_AT_frame_base(_) => AttributeName::DW_AT_frame_base,
        Attribute::DW_AT_type(_) => AttributeName::DW_AT_type,
        Attribute::DW_AT_GNU_all_tail_call_sites(_) => AttributeName::DW_AT_GNU_all_tail_call_sites,
        Attribute::DW_AT_GNU_all_call_sites(_) => AttributeName::DW_AT_GNU_all_call_sites,
    }
}

/// Whether the engine has a decoder for this attribute name.
pub open spec fn attr_supported(name: AttributeName) -> bool {
    ||| name == AttributeName::DW_AT_sibling
    ||| name == AttributeName::DW_AT_location
    ||| name == AttributeName::DW_AT_name
    ||| name == AttributeName::DW_AT_byte_size
    ||| name == AttributeName::DW_AT_stmt_list
    ||| name == AttributeName::DW_AT_low_pc
    ||| name == AttributeName::DW_AT_high_pc
    ||| name == AttributeName::DW_AT_language
    ||| name == AttributeName::DW_AT_comp_dir
    ||| name == AttributeName::DW_AT_producer
    ||| name == AttributeName::DW_AT_prototyped
    ||| name == AttributeName::DW_AT_data_member_location
    ||| name == AttributeName::DW_AT_decl_column
    ||| name == AttributeName::DW_AT_decl_file
    ||| name == AttributeName::DW_AT_decl_line
    ||| name == AttributeName::DW_AT_declaration
    ||| name == AttributeName::DW_AT_encoding
    ||| name == AttributeName::DW_AT_external
    ||| name == AttributeName::DW_AT_frame_base
    ||| name == AttributeName::DW_AT_type
    ||| name == AttributeName::DW_AT_GNU_all_tail_call_sites
    ||| name == AttributeName::DW_AT_GNU_all_call_sites
}

/// The decode of a `.debug_info` unit header at `u`: the 64-bit format
/// flag, the position of the unit's entries, the length of the entries,
/// and the declared address size.  `None` when a read runs out, the
/// version is unsupported, the length cannot hold the header, or the
/// address size is neither 4 nor 8.
pub open spec fn spec_info_header(b: Seq<u8>, u: int, sf: bool, le: bool) -> Option<
    (bool, int, int, u8),
> {
    if u < 0 || u + 4 > b.len() {
        None
    } else {
        let w0 = crate::reader::word_at(b, u, 4, le);
        let fmt64 = w0 == 0xffffffff;
        let hlen = if fmt64 {
            crate::reader::word_at(b, u + 4, 8, le)
        } else {
            w0
        };
        let p1 = if fmt64 {
            u + 12
        } else {
            u + 4
        };
        let rest = if fmt64 {
            11int
        } else {
            7int
        };
        let ow = if fmt64 {
            crate::reader::addr_size(sf) as int
        } else {
            4int
        };
        if fmt64 && u + 12 > b.len() {
            None
        } else if p1 + 2 > b.len() {
            None
        } else if !(crate::reader::word_at(b, p1, 2, le) == 2 || crate::reader::word_at(
            b,
            p1,
            2,
            le,
        ) == 4) {
            None
        } else if hlen < rest {
            None
        } else if p1 + 2 + ow > b.len() {
            None
        } else if p1 + 2 + ow + 1 > b.len() {
            None
        } else {
            let asz = b[p1 + 2 + ow];
            if !(asz == 4 || asz == 8) {
                None
            } else {
                Some((fmt64, p1 + 3 + ow, hlen - rest, asz))
            }
        }
    }
}


/// The width in bytes of a fixed-width constant or reference form; zero
/// for the forms that are not fixed-width scalars.
pub open spec fn form_width(f: FormEncoding) -> int {
    if f == FormEncoding::DW_FORM_data1 || f == FormEncoding::DW_FORM_ref1 {
        1
    } else if f == FormEncoding::DW_FORM_data2 || f == FormEncoding::DW_FORM_ref2 {
        2
    } else if f == FormEncoding::DW_FORM_data4 || f == FormEncoding::DW_FORM_ref4 {
        4
    } else if f == FormEncoding::DW_FORM_data8 || f == FormEncoding::DW_FORM_ref8 {
        8
    } else {
        0
    }
}

/// The forms a two-byte constant accepts.
pub open spec fn u16_form(f: FormEncoding) -> bool {
    f == FormEncoding::DW_FORM_data1 || f == FormEncoding::DW_FORM_data2
}

/// The forms a four-byte constant accepts.
pub open spec fn u32_form(f: FormEncoding) -> bool {
    u16_form(f) || f == FormEncoding::DW_FORM_data4
}

/// The forms a reference accepts.
pub open spec fn ref_form(f: FormEncoding) -> bool {
    ||| f == FormEncoding::DW_FORM_ref1
    ||| f == FormEncoding::DW_FORM_ref2
    ||| f == FormEncoding::DW_FORM_ref4
    ||| f == FormEncoding::DW_FORM_ref8
}

/// The forms a flag accepts.
pub open spec fn flag_form(f: FormEncoding) -> bool {
    f == FormEncoding::DW_FORM_flag || f == FormEncoding::DW_FORM_flag_present
}

/// The forms a string accepts.
pub open spec fn str_form(f: FormEncoding) -> bool {
    f == FormEncoding::DW_FORM_string || f == FormEncoding::DW_FORM_strp
}

/// The block-shaped location forms: an explicit length prefix, then that
/// many expression bytes.
pub open spec fn exprloc_block_form(f: FormEncoding) -> bool {
    ||| f == FormEncoding::DW_FORM_block1
    ||| f == FormEncoding::DW_FORM_block2
    ||| f == FormEncoding::DW_FORM_block4
    ||| f == FormEncoding::DW_FORM_block
}

/// The constant-shaped location forms: an offset into the location-list
/// section.
pub open spec fn exprloc_data_form(f: FormEncoding) -> bool {
    ||| f == FormEncoding::DW_FORM_data1
    ||| f == FormEncoding::DW_FORM_data2
    ||| f == FormEncoding::DW_FORM_data4
    ||| f == FormEncoding::DW_FORM_data8
}

/// The forms a location accepts.
pub open spec fn exprloc_form(f: FormEncoding) -> bool {
    exprloc_block_form(f) || exprloc_data_form(f)
}

/// Whether the engine has a decoder for this (attribute, form) pair.
pub open spec fn pair_supported(name: AttributeName, f: FormEncoding) -> bool {
    match name {
        AttributeName::DW_AT_sibling => ref_form(f),
        AttributeName::DW_AT_type => ref_form(f),
        AttributeName::DW_AT_location => exprloc_form(f),
        AttributeName::DW_AT_data_member_location => exprloc_form(f),
        AttributeName::DW_AT_frame_base => exprloc_form(f),
        AttributeName::DW_AT_name => str_form(f),
        AttributeName::DW_AT_comp_dir => str_form(f),
        AttributeName::DW_AT_producer => str_form(f),
        AttributeName::DW_AT_byte_size => u32_form(f),
        AttributeName::DW_AT_stmt_list => u32_form(f),
        AttributeName::DW_AT_decl_column => u32_form(f),
        AttributeName::DW_AT_decl_file => u32_form(f),
        AttributeName::DW_AT_decl_line => u32_form(f),
        AttributeName::DW_AT_low_pc => true,
        AttributeName::DW_AT_high_pc => true,
        AttributeName::DW_AT_language => u16_form(f),
        AttributeName::DW_AT_prototyped => flag_form(f),
        AttributeName::DW_AT_declaration => flag_form(f),
        AttributeName::DW_AT_external => flag_form(f),
        AttributeName::DW_AT_GNU_all_tail_call_sites => flag_form(f),
        AttributeName::DW_AT_GNU_all_call_sites => flag_form(f),
        AttributeName::DW_AT_encoding => f == FormEncoding::DW_FORM_data1,
        _ => false,
    }
}

/// What a decode helper may return on its error side: a pair with no
/// decoder is exactly the unsupported-attribute error carrying both
/// encodings, and a supported pair fails only with a read failure, never
/// with that error.
pub open spec fn helper_errors<T>(
    r: Result<T, ElfError>,
    ae: crate::abbrev::AttributeEncoding,
    form_ok: bool,
) -> bool {
    &&& (!form_ok ==> r == Err::<T, ElfError>(
        ElfError::UnsupportedAttribute(spec_name_code(ae.name), spec_form_code(ae.encoding)),
    ))
    &&& (r matches Err(e) ==> (form_ok ==> (e == ElfError::ReadOutOfBounds || e
        == ElfError::NoDebugStr || e == ElfError::BadRange || e == ElfError::IntegerTooLarge)))
}

impl<'a> ParseTypes<'a> {
    /// The declared address size is one of the two the format allows;
    /// `new` establishes it.
    pub open spec fn wf(&self) -> bool {
        self.addr_size == 4 || self.addr_size == 8
    }

    /// A `w`-byte read at `i` stays inside the buffer.
    pub open spec fn scalar_ok(&self, i: int, w: int) -> bool {
        1 <= w && 0 <= i && i + w <= self.reader@.len()
    }

    /// The value of the `w` bytes at `i` in the file's byte order.
    pub open spec fn scalar_val(&self, i: int, w: int) -> int {
        crate::reader::word_at(self.reader@, i, w as nat, self.reader.little_endian)
    }

    pub open spec fn u8_ok(&self, i: int, f: FormEncoding) -> bool {
        f == FormEncoding::DW_FORM_data1 && self.scalar_ok(i, 1)
    }

    pub open spec fn u16_ok(&self, i: int, f: FormEncoding) -> bool {
        u16_form(f) && self.scalar_ok(i, form_width(f))
    }

    pub open spec fn u32_ok(&self, i: int, f: FormEncoding) -> bool {
        u32_form(f) && self.scalar_ok(i, form_width(f))
    }

    pub open spec fn ref_ok(&self, i: int, f: FormEncoding) -> bool {
        ref_form(f) && self.scalar_ok(i, form_width(f))
    }

    pub open spec fn flag_ok(&self, i: int, f: FormEncoding) -> bool {
        (f == FormEncoding::DW_FORM_flag && self.scalar_ok(i, 1)) || f
            == FormEncoding::DW_FORM_flag_present
    }

    pub open spec fn flag_val(&self, i: int, f: FormEncoding) -> bool {
        if f == FormEncoding::DW_FORM_flag {
            self.reader@[i] != 0
        } else {
            true
        }
    }

    pub open spec fn flag_next(&self, i: int, f: FormEncoding) -> int {
        if f == FormEncoding::DW_FORM_flag {
            i + 1
        } else {
            i
        }
    }

    pub open spec fn addr_ok(&self, i: int) -> bool {
        self.scalar_ok(i, self.addr_size as int)
    }

    /// The characters of the null-terminated string at `p`.
    pub open spec fn nul_chars(&self, p: int) -> Seq<char> {
        crate::reader::byte_chars(
            self.reader@.subrange(p, crate::reader::find_nul(self.reader@, p)),
        )
    }

    /// How wide a `.debug_str` offset is in this unit's format.
    pub open spec fn offset_width(&self) -> int {
        if self.sixty_four {
            8
        } else {
            4
        }
    }

    /// Where in the file a `strp` attribute at `i` points.
    pub open spec fn strp_pos(&self, i: int) -> int {
        self.strings.unwrap().0 + self.scalar_val(i, self.offset_width())
    }

    pub open spec fn strp_ok(&self, i: int) -> bool {
        &&& self.scalar_ok(i, self.offset_width())
        &&& self.strings is Some
        &&& self.strp_pos(i) <= u64::MAX
        &&& crate::reader::find_nul(self.reader@, self.strp_pos(i)) < self.reader@.len()
    }

    pub open spec fn str_ok(&self, i: int, f: FormEncoding) -> bool {
        ||| (f == FormEncoding::DW_FORM_string && 0 <= i <= self.reader@.len()
            && crate::reader::find_nul(self.reader@, i) < self.reader@.len())
        ||| (f == FormEncoding::DW_FORM_strp && self.strp_ok(i))
    }

    pub open spec fn str_chars(&self, i: int, f: FormEncoding) -> Seq<char> {
        if f == FormEncoding::DW_FORM_string {
            self.nul_chars(i)
        } else {
            self.nul_chars(self.strp_pos(i))
        }
    }

    pub open spec fn str_next(&self, i: int, f: FormEncoding) -> int {
        if f == FormEncoding::DW_FORM_string {
            crate::reader::find_nul(self.reader@, i) + 1
        } else {
            i + self.offset_width()
        }
    }

    /// Whether a block form's length prefix decodes at `i`.
    pub open spec fn block_head_ok(&self, i: int, f: FormEncoding) -> bool {
        if f == FormEncoding::DW_FORM_block1 {
            self.scalar_ok(i, 1)
        } else if f == FormEncoding::DW_FORM_block2 {
            self.scalar_ok(i, 2)
        } else if f == FormEncoding::DW_FORM_block4 {
            self.scalar_ok(i, 4)
        } else {
            crate::reader::uleb_at(self.reader@, i) matches Some((v, _)) && v
                < 0x1_0000_0000_0000_0000
        }
    }

    /// The block's declared length.
    pub open spec fn block_len(&self, i: int, f: FormEncoding) -> int {
        if f == FormEncoding::DW_FORM_block1 {
            self.scalar_val(i, 1)
        } else if f == FormEncoding::DW_FORM_block2 {
            self.scalar_val(i, 2)
        } else if f == FormEncoding::DW_FORM_block4 {
            self.scalar_val(i, 4)
        } else {
            match crate::reader::uleb_at(self.reader@, i) {
                Some((v, _)) => v,
                None => 0,
            }
        }
    }

    /// Where the block's expression bytes start.
    pub open spec fn block_after(&self, i: int, f: FormEncoding) -> int {
        if f == FormEncoding::DW_FORM_block1 {
            i + 1
        } else if f == FormEncoding::DW_FORM_block2 {
            i + 2
        } else if f == FormEncoding::DW_FORM_block4 {
            i + 4
        } else {
            match crate::reader::uleb_at(self.reader@, i) {
                Some((_, n)) => n,
                None => i,
            }
        }
    }

    pub open spec fn exprloc_ok(&self, i: int, f: FormEncoding) -> bool {
        ||| (exprloc_block_form(f) && self.block_head_ok(i, f) && self.block_after(i, f)
            + self.block_len(i, f) <= u64::MAX)
        ||| (exprloc_data_form(f) && self.scalar_ok(i, form_width(f)))
    }

    /// What a decoded location holds for each form shape.
    pub open spec fn exprloc_matches(&self, tl: TypeLoc, i: int, f: FormEncoding) -> bool {
        match tl {
            TypeLoc::ExprLoc(o, l) => exprloc_block_form(f) && o.0 == self.block_after(i, f)
                && l == self.block_len(i, f),
            TypeLoc::LocListPtr(v) => exprloc_data_form(f) && v as int == self.scalar_val(
                i,
                form_width(f),
            ),
        }
    }

    pub open spec fn exprloc_next(&self, i: int, f: FormEncoding) -> int {
        if exprloc_block_form(f) {
            self.block_after(i, f) + self.block_len(i, f)
        } else {
            i + form_width(f)
        }
    }


    /// Where the attribute list `attrs[k..]` ends when decoded from `i`,
    /// or `None` when one of its attributes cannot be decoded there.
    pub open spec fn spec_attrs_end(
        &self,
        i: int,
        attrs: Seq<crate::abbrev::AttributeEncoding>,
        k: int,
    ) -> Option<int>
        decreases attrs.len() - k,
    {
        if k < 0 || k >= attrs.len() {
            Some(i)
        } else if !self.attr_ok(i, attrs[k]) {
            None
        } else {
            self.spec_attrs_end(self.attr_next(i, attrs[k]), attrs, k + 1)
        }
    }

    /// Whether the decoded values `vals[k..]` are exactly the attributes
    /// `attrs[k..]` decoded from `i`, each at the position the previous
    /// one ends.
    pub open spec fn attrs_match_from(
        &self,
        vals: Seq<Attribute>,
        i: int,
        attrs: Seq<crate::abbrev::AttributeEncoding>,
        k: int,
    ) -> bool
        decreases attrs.len() - k,
    {
        if k < 0 || k >= attrs.len() {
            true
        } else {
            &&& k < vals.len()
            &&& self.attr_matches(vals[k], i, attrs[k])
            &&& self.attrs_match_from(vals, self.attr_next(i, attrs[k]), attrs, k + 1)
        }
    }

    /// The error the first undecodable attribute of `attrs[k..]` yields
    /// from `i`: the unsupported-attribute error carrying both encodings
    /// for a pair with no decoder, a read failure otherwise.
    pub open spec fn attrs_err_ok(
        &self,
        i: int,
        attrs: Seq<crate::abbrev::AttributeEncoding>,
        k: int,
        e: ElfError,
    ) -> bool
        decreases attrs.len() - k,
    {
        if k < 0 || k >= attrs.len() {
            false
        } else if self.attr_ok(i, attrs[k]) {
            self.attrs_err_ok(self.attr_next(i, attrs[k]), attrs, k + 1, e)
        } else if !pair_supported(attrs[k].name, attrs[k].encoding) {
            e == ElfError::UnsupportedAttribute(
                spec_name_code(attrs[k].name),
                spec_form_code(attrs[k].encoding),
            )
        } else {
            ||| e == ElfError::ReadOutOfBounds
            ||| e == ElfError::NoDebugStr
            ||| e == ElfError::BadRange
            ||| e == ElfError::IntegerTooLarge
        }
    }

    /// Why decoding a node at `i` fails without yielding a node: its code
    /// cannot be read, names no abbreviation, or one of its attributes
    /// cannot be decoded.
    pub open spec fn node_fail(&self, i: int, e: ElfError) -> bool {
        match crate::reader::uleb_at(self.reader@, i) {
            None => e == ElfError::ReadOutOfBounds || e == ElfError::IntegerTooLarge,
            Some((c, n1)) => {
                if c >= 0x1_0000_0000_0000_0000 {
                    e == ElfError::ReadOutOfBounds || e == ElfError::IntegerTooLarge
                } else if c == 0 {
                    false
                } else if c > self.abbrevs@.len() {
                    e == ElfError::BadAbbreviationCode(c as u64)
                } else {
                    self.spec_attrs_end(n1, self.abbrevs@[c - 1].attrs@, 0) is None
                        && self.attrs_err_ok(n1, self.abbrevs@[c - 1].attrs@, 0, e)
                }
            },
        }
    }

    /// Where the node decode that yields `t` from `i` ends: after the
    /// code, the attributes, and, when the abbreviation declares
    /// children, the child list with its terminator.
    pub open spec fn node_extent(&self, i: int, t: Type) -> int
        decreases t, 0int,
    {
        match crate::reader::uleb_at(self.reader@, i) {
            None => i,
            Some((code, n1)) => {
                if code == 0 || code >= 0x1_0000_0000_0000_0000 || code > self.abbrevs@.len() {
                    i
                } else {
                    match self.spec_attrs_end(n1, self.abbrevs@[code - 1].attrs@, 0) {
                        None => i,
                        Some(ae) => if self.abbrevs@[code - 1].has_children {
                            self.forest_extent(ae, t.children@, 0)
                        } else {
                            ae
                        },
                    }
                }
            },
        }
    }

    /// Where the sibling walk that yields `nodes[k..]` from `i` ends on
    /// its clean paths: after each node in turn, then after the zero code
    /// that closes the list, or at the unit's end.
    pub open spec fn forest_extent(&self, i: int, nodes: Seq<Type>, k: int) -> int
        decreases nodes, nodes.len() - k,
    {
        if k < 0 || k >= nodes.len() {
            if nodes.len() > 0 && i >= self.end.0 {
                i
            } else {
                match crate::reader::uleb_at(self.reader@, i) {
                    Some((c, n1)) => if c == 0 {
                        n1
                    } else {
                        i
                    },
                    None => i,
                }
            }
        } else {
            self.forest_extent(self.node_extent(i, nodes[k]), nodes, k + 1)
        }
    }

    /// Decoding the node at `i` yields exactly `t`, with `cerr` the first
    /// error met among its children: none when it has no children or its
    /// child list ends cleanly.
    pub open spec fn spec_node_step(&self, i: int, t: Type, cerr: Option<ElfError>) -> bool
        decreases t, 0int, 0int,
    {
        crate::reader::uleb_at(self.reader@, i) matches Some((code, n1)) && 0 < code
            < 0x1_0000_0000_0000_0000 && code <= self.abbrevs@.len() && (self.spec_attrs_end(
            n1,
            self.abbrevs@[code - 1].attrs@,
            0,
        ) matches Some(ae) && (t.tag == self.abbrevs@[code - 1].tag && t.attrs@.len()
            == self.abbrevs@[code - 1].attrs@.len() && self.attrs_match_from(
            t.attrs@,
            n1,
            self.abbrevs@[code - 1].attrs@,
            0,
        ) && if self.abbrevs@[code - 1].has_children {
            self.spec_forest_from(ae, t.children@, 0, cerr)
        } else {
            t.children@.len() == 0 && cerr is None
        }))
    }

    /// Decoding a sibling list from `i` yields exactly `nodes[k..]`, with
    /// `err` the first error met, if any: one bad entry ends the walk but
    /// never discards what was decoded before it.  The walk ends cleanly
    /// at a zero code or once a node ends at or past the unit's end.
    pub open spec fn spec_forest_from(
        &self,
        i: int,
        nodes: Seq<Type>,
        k: int,
        err: Option<ElfError>,
    ) -> bool
        decreases nodes, nodes.len() - k, 1int,
    {
        if k < 0 || k >= nodes.len() {
            (crate::reader::uleb_at(self.reader@, i) matches Some((c, n1)) && c == 0
                && err is None) || (err is Some && self.node_fail(i, err->Some_0))
        } else {
            (k == nodes.len() - 1 && err is Some && self.spec_node_step(i, nodes[k], err)) || (
            self.spec_node_step(i, nodes[k], None) && ({
                let mid = self.node_extent(i, nodes[k]);
                if mid >= self.end.0 {
                    k == nodes.len() - 1 && err is None
                } else if mid > self.reader@.len() {
                    k == nodes.len() - 1 && err == Some(ElfError::ReadOutOfBounds)
                } else {
                    self.spec_forest_from(mid, nodes, k + 1, err)
                }
            }))
        }
    }

    /// Folds one cleanly decoded sibling after another onto the walk fact
    /// that already covers the remaining suffix.
    proof fn lemma_forest_fold(
        &self,
        nodes: Seq<Type>,
        ps: Seq<int>,
        j: int,
        k: int,
        err: Option<ElfError>,
    )
        requires
            0 <= j <= k <= nodes.len(),
            ps.len() >= k + 1,
            forall|m: int| j <= m < k ==> self.spec_node_step(#[trigger] ps[m], nodes[m], None),
            forall|m: int| j <= m < k ==> self.node_extent(#[trigger] ps[m], nodes[m]) == ps[m
                + 1],
            forall|m: int|
                j <= m < k ==> (#[trigger] ps[m + 1]) < self.end.0 && ps[m + 1]
                    <= self.reader@.len(),
            self.spec_forest_from(ps[k], nodes, k, err),
        ensures
            self.spec_forest_from(ps[j], nodes, j, err),
            self.forest_extent(ps[j], nodes, j) == self.forest_extent(ps[k], nodes, k),
        decreases k - j,
    {
        if j < k {
            self.lemma_forest_fold(nodes, ps, j + 1, k, err);
        }
    }

    /// Folds per-attribute decode facts into the list-level end and
    /// match predicates.
    proof fn lemma_attrs_fold(
        &self,
        vals: Seq<Attribute>,
        attrs: Seq<crate::abbrev::AttributeEncoding>,
        ps: Seq<int>,
        j: int,
    )
        requires
            0 <= j <= attrs.len(),
            vals.len() == attrs.len(),
            ps.len() == attrs.len() + 1,
            forall|m: int| j <= m < attrs.len() ==> self.attr_ok(#[trigger] ps[m], attrs[m]),
            forall|m: int|
                j <= m < attrs.len() ==> self.attr_next(#[trigger] ps[m], attrs[m]) == ps[m + 1],
            forall|m: int|
                j <= m < attrs.len() ==> self.attr_matches(#[trigger] vals[m], ps[m], attrs[m]),
        ensures
            self.spec_attrs_end(ps[j], attrs, j) == Some(ps[attrs.len() as int]),
            self.attrs_match_from(vals, ps[j], attrs, j),
        decreases attrs.len() - j,
    {
        if j < attrs.len() {
            self.lemma_attrs_fold(vals, attrs, ps, j + 1);
        }
    }

    /// Folds per-attribute decode facts up to the first failing
    /// attribute into the list-level failure predicates.
    proof fn lemma_attrs_fold_fail(
        &self,
        attrs: Seq<crate::abbrev::AttributeEncoding>,
        ps: Seq<int>,
        j: int,
        k: int,
        e: ElfError,
    )
        requires
            0 <= j <= k < attrs.len(),
            ps.len() == k + 1,
            forall|m: int| j <= m < k ==> self.attr_ok(#[trigger] ps[m], attrs[m]),
            forall|m: int| j <= m < k ==> self.attr_next(#[trigger] ps[m], attrs[m]) == ps[m + 1],
            !self.attr_ok(ps[k], attrs[k]),
            if !pair_supported(attrs[k].name, attrs[k].encoding) {
                e == ElfError::UnsupportedAttribute(
                    spec_name_code(attrs[k].name),
                    spec_form_code(attrs[k].encoding),
                )
            } else {
                e == ElfError::ReadOutOfBounds || e == ElfError::NoDebugStr || e
                    == ElfError::BadRange || e == ElfError::IntegerTooLarge
            },
        ensures
            self.spec_attrs_end(ps[j], attrs, j) is None,
            self.attrs_err_ok(ps[j], attrs, j, e),
        decreases k - j,
    {
        if j < k {
            self.lemma_attrs_fold_fail(attrs, ps, j + 1, k, e);
        }
    }

    /// Whether the attribute at `i` decodes: its (name, form) pair has a
    /// decoder and the form's reads stay inside the buffer.
    pub open spec fn attr_ok(&self, i: int, ae: crate::abbrev::AttributeEncoding) -> bool {
        match ae.name {
            AttributeName::DW_AT_sibling => self.ref_ok(i, ae.encoding),
            AttributeName::DW_AT_type => self.ref_ok(i, ae.encoding),
            AttributeName::DW_AT_location => self.exprloc_ok(i, ae.encoding),
            AttributeName::DW_AT_data_member_location => self.exprloc_ok(i, ae.encoding),
            AttributeName::DW_AT_frame_base => self.exprloc_ok(i, ae.encoding),
            AttributeName::DW_AT_name => self.str_ok(i, ae.encoding),
            AttributeName::DW_AT_comp_dir => self.str_ok(i, ae.encoding),
            AttributeName::DW_AT_producer => self.str_ok(i, ae.encoding),
            AttributeName::DW_AT_byte_size => self.u32_ok(i, ae.encoding),
            AttributeName::DW_AT_stmt_list => self.u32_ok(i, ae.encoding),
            AttributeName::DW_AT_decl_column => self.u32_ok(i, ae.encoding),
            AttributeName::DW_AT_decl_file => self.u32_ok(i, ae.encoding),
            AttributeName::DW_AT_decl_line => self.u32_ok(i, ae.encoding),
            AttributeName::DW_AT_low_pc => self.addr_ok(i),
            AttributeName::DW_AT_high_pc => self.addr_ok(i),
            AttributeName::DW_AT_language => self.u16_ok(i, ae.encoding),
            AttributeName::DW_AT_prototyped => self.flag_ok(i, ae.encoding),
            AttributeName::DW_AT_declaration => self.flag_ok(i, ae.encoding),
            AttributeName::DW_AT_external => self.flag_ok(i, ae.encoding),
            AttributeName::DW_AT_GNU_all_tail_call_sites => self.flag_ok(i, ae.encoding),
            AttributeName::DW_AT_GNU_all_call_sites => self.flag_ok(i, ae.encoding),
            AttributeName::DW_AT_encoding => self.u8_ok(i, ae.encoding),
            _ => false,
        }
    }

    /// What the decoded attribute holds: it answers for the declared name
    /// and carries the value the declared form's decode rules give at `i`.
    pub open spec fn attr_matches(
        &self,
        a: Attribute,
        i: int,
        ae: crate::abbrev::AttributeEncoding,
    ) -> bool {
        match a {
            Attribute::DW_AT_sibling(v) => ae.name == AttributeName::DW_AT_sibling && v as int
                == self.scalar_val(i, form_width(ae.encoding)),
            Attribute::DW_AT_type(v) => ae.name == AttributeName::DW_AT_type && v as int
                == self.scalar_val(i, form_width(ae.encoding)),
            Attribute::DW_AT_location(tl) => ae.name == AttributeName::DW_AT_location
                && self.exprloc_matches(tl, i, ae.encoding),
            Attribute::DW_AT_data_member_location(tl) => ae.name
                == AttributeName::DW_AT_data_member_location && self.exprloc_matches(
                tl,
                i,
                ae.encoding,
            ),
            Attribute::DW_AT_frame_base(tl) => ae.name == AttributeName::DW_AT_frame_base
                && self.exprloc_matches(tl, i, ae.encoding),
            Attribute::DW_AT_name(sv) => ae.name == AttributeName::DW_AT_name && sv@
                == self.str_chars(i, ae.encoding),
            Attribute::DW_AT_comp_dir(sv) => ae.name == AttributeName::DW_AT_comp_dir && sv@
                == self.str_chars(i, ae.encoding),
            Attribute::DW_AT_producer(sv) => ae.name == AttributeName::DW_AT_producer && sv@
                == self.str_chars(i, ae.encoding),
            Attribute::DW_AT_byte_size(v) => ae.name == AttributeName::DW_AT_byte_size && v as int
                == self.scalar_val(i, form_width(ae.encoding)),
            Attribute::DW_AT_stmt_list(v) => ae.name == AttributeName::DW_AT_stmt_list && v as int
                == self.scalar_val(i, form_width(ae.encoding)),
            Attribute::DW_AT_decl_column(v) => ae.name == AttributeName::DW_AT_decl_column
                && v as int == self.scalar_val(i, form_width(ae.encoding)),
            Attribute::DW_AT_decl_file(v) => ae.name == AttributeName::DW_AT_decl_file && v as int
                == self.scalar_val(i, form_width(ae.encoding)),
            Attribute::DW_AT_decl_line(v) => ae.name == AttributeName::DW_AT_decl_line && v as int
                == self.scalar_val(i, form_width(ae.encoding)),
            Attribute::DW_AT_low_pc(v) => ae.name == AttributeName::DW_AT_low_pc && v as int
                == self.scalar_val(i, self.addr_size as int),
            Attribute::DW_AT_high_pc(v) => ae.name == AttributeName::DW_AT_high_pc && v as int
                == self.scalar_val(i, self.addr_size as int),
            Attribute::DW_AT_language(v) => ae.name == AttributeName::DW_AT_language && v as int
                == self.scalar_val(i, form_width(ae.encoding)),
            Attribute::DW_AT_prototyped(v) => ae.name == AttributeName::DW_AT_prototyped && v
                == self.flag_val(i, ae.encoding),
            Attribute::DW_AT_declaration(v) => ae.name == AttributeName::DW_AT_declaration && v
                == self.flag_val(i, ae.encoding),
            Attribute::DW_AT_external(v) => ae.name == AttributeName::DW_AT_external && v
                == self.flag_val(i, ae.encoding),
            Attribute::DW_AT_GNU_all_tail_call_sites(v) => ae.name
                == AttributeName::DW_AT_GNU_all_tail_call_sites && v == self.flag_val(
                i,
                ae.encoding,
            ),
            Attribute::DW_AT_GNU_all_call_sites(v) => ae.name
                == AttributeName::DW_AT_GNU_all_call_sites && v == self.flag_val(i, ae.encoding),
            Attribute::DW_AT_encoding(v) => ae.name == AttributeName::DW_AT_encoding && v as int
                == self.scalar_val(i, 1),
        }
    }

    /// Where the stream stands after the attribute at `i`.
    pub open spec fn attr_next(&self, i: int, ae: crate::abbrev::AttributeEncoding) -> int {
        match ae.name {
            AttributeName::DW_AT_sibling => i + form_width(ae.encoding),
            AttributeName::DW_AT_type => i + form_width(ae.encoding),
            AttributeName::DW_AT_location => self.exprloc_next(i, ae.encoding),
            AttributeName::DW_AT_data_member_location => self.exprloc_next(i, ae.encoding),
            AttributeName::DW_AT_frame_base => self.exprloc_next(i, ae.encoding),
            AttributeName::DW_AT_name => self.str_next(i, ae.encoding),
            AttributeName::DW_AT_comp_dir => self.str_next(i, ae.encoding),
            AttributeName::DW_AT_producer => self.str_next(i, ae.encoding),
            AttributeName::DW_AT_low_pc => i + self.addr_size,
            AttributeName::DW_AT_high_pc => i + self.addr_size,
            AttributeName::DW_AT_prototyped => self.flag_next(i, ae.encoding),
            AttributeName::DW_AT_declaration => self.flag_next(i, ae.encoding),
            AttributeName::DW_AT_external => self.flag_next(i, ae.encoding),
            AttributeName::DW_AT_GNU_all_tail_call_sites => self.flag_next(i, ae.encoding),
            AttributeName::DW_AT_GNU_all_call_sites => self.flag_next(i, ae.encoding),
            _ => i + form_width(ae.encoding),
        }
    }

    /// The whole contract of one attribute decode, between the position
    /// `i` it starts at and the position `j` it leaves the stream at.
    pub open spec fn attr_contract(
        &self,
        r: Result<Attribute, ElfError>,
        i: int,
        j: int,
        ae: crate::abbrev::AttributeEncoding,
    ) -> bool {
        &&& (r is Ok <==> self.attr_ok(i, ae))
        &&& (r matches Ok(a) ==> self.attr_matches(a, i, ae) && j == self.attr_next(i, ae))
        &&& helper_errors(r, ae, pair_supported(ae.name, ae.encoding))
    }
}

/// The fields of a `.debug_info` unit header that set up the tree walk.
pub struct ParseTypes<'a> {
    pub reader: &'a Reader,
    /// Where the unit's node entries start, after the header.
    pub values: Offset,
    /// Where the unit's node entries end.
    pub end: Offset,
    /// The start of `.debug_str`, when present.
    pub strings: Option<Offset>,
    /// The unit's declared address size, 4 or 8.
    pub addr_size: u8,
    /// The unit's abbreviation table, indexed by `code - 1`.
    pub abbrevs: Vec<Abbreviation>,
    /// Whether the unit uses the 64-bit DWARF format.
    pub sixty_four: bool,
}

/// The abbreviation table the executable's `.debug_abbrev` section
/// declares, as decoded views.
pub open spec fn spec_exe_abbrevs(exe: ElfFile) -> Seq<
    (crate::dwarf::Tag, bool, Seq<crate::abbrev::AttributeEncoding>),
> {
    match crate::elf_file::spec_first_named(
        exe.reader@,
        exe.sections@,
        exe.header.string_table_index as u32,
        ".debug_abbrev"@,
        0,
    ) {
        Some(j) => crate::abbrev::spec_abbrev_table(
            exe.reader@,
            exe.sections@[j].obytes.start.0 as int,
        ),
        None => Seq::empty(),
    }
}

/// Where the executable's `.debug_str` section starts, when present.
pub open spec fn spec_exe_strings(exe: ElfFile) -> Option<Offset> {
    match crate::elf_file::spec_first_named(
        exe.reader@,
        exe.sections@,
        exe.header.string_table_index as u32,
        ".debug_str"@,
        0,
    ) {
        Some(j) => Some(Offset(exe.sections@[j].obytes.start.0)),
        None => None,
    }
}

/// How many bytes remain before the end of the buffer, or zero once the
/// position has passed it; the tree walk's termination measure.
pub open spec fn span_left(b: Seq<u8>, off: int) -> int {
    if off <= b.len() {
        b.len() - off
    } else {
        0
    }
}

impl<'a> ParseTypes<'a> {
    /// Prepares a tree walk over the executable's `.debug_info` section:
    /// reads the unit header and collects the abbreviation table and the
    /// position of `.debug_str`.
    pub fn new(exe: &'a ElfFile) -> (r: Result<Self, ElfError>)
        requires
            exe.tables_wf(),
        ensures
            r matches Ok(p) ==> p.reader == &exe.reader && p.wf(),
            r == Err::<Self, ElfError>(ElfError::NoDebugInfo) <==> crate::elf_file::spec_first_named(
                exe.reader@,
                exe.sections@,
                exe.header.string_table_index as u32,
                ".debug_info"@,
                0,
            ) is None,
            crate::elf_file::spec_first_named(
                exe.reader@,
                exe.sections@,
                exe.header.string_table_index as u32,
                ".debug_info"@,
                0,
            ) matches Some(j) ==> ({
                let hd = spec_info_header(
                    exe.reader@,
                    exe.sections@[j].obytes.start.0 as int,
                    exe.reader.sixty_four_bit,
                    exe.reader.little_endian,
                );
                &&& (r is Ok <==> (hd matches Some((fmt, values, rest_len, asz)) && rest_len
                    <= u64::MAX - values))
                &&& (r matches Ok(p) ==> (hd matches Some((fmt, values, rest_len, asz)) && {
                    &&& p.sixty_four == fmt
                    &&& p.values.0 == values
                    &&& p.end.0 == values + rest_len
                    &&& p.addr_size == asz
                    &&& p.abbrevs@.map_values(
                        |a: Abbreviation| crate::abbrev::abbrev_view(a),
                    ) == spec_exe_abbrevs(*exe)
                    &&& p.strings == spec_exe_strings(*exe)
                }))
            }),
    {
        let section = match exe.find_section_named(".debug_info") {
            Some((_, section)) => section,
            None => {
                return Err(ElfError::NoDebugInfo);
            },
        };
        let mut stream = Stream::new(&exe.reader, section.obytes.start);
        let abbrevs = exe.find_abbreviations();
        let strings = match exe.find_section_named(".debug_str") {
            Some((_, sh)) => Some(sh.obytes.start),
            None => None,
        };
        let (sixty_four, length, addr_size) = Self::parse_header(&mut stream)?;
        let values = stream.offset;
        if length > u64::MAX - values.0 {
            return Err(ElfError::BadRange);
        }
        Ok(
            ParseTypes {
                reader: &exe.reader,
                abbrevs,
                values,
                end: Offset(values.0 + length),
                strings,
                addr_size,
                sixty_four,
            },
        )
    }

    /// Reads a unit header: the unit length (with the 64-bit escape), the
    /// version, the abbreviation-table offset, and the address size.
    /// Returns the format flag, the length of the entries that follow the
    /// header, and the address size.
    fn parse_header(stream: &mut Stream) -> (r: Result<(bool, u64, u8), ElfError>)
        ensures
            final(stream).reader == old(stream).reader,
            r is Ok <==> spec_info_header(
                old(stream).reader@,
                old(stream).offset.0 as int,
                old(stream).reader.sixty_four_bit,
                old(stream).reader.little_endian,
            ) is Some,
            r matches Ok((fmt, rest_len, asz)) ==> (spec_info_header(
                old(stream).reader@,
                old(stream).offset.0 as int,
                old(stream).reader.sixty_four_bit,
                old(stream).reader.little_endian,
            ) matches Some((sfmt, svalues, srest, sasz)) && fmt == sfmt && rest_len == srest
                && asz == sasz && final(stream).offset.0 == svalues),
            r matches Err(e) ==> e != ElfError::NoDebugInfo,
    {
        let word = stream.read_word()?;
        let (sixty_four, mut values_length) = if word == 0xffffffff {
            (true, stream.read_xword()?)
        } else {
            (false, word as u64)
        };
        let version = stream.read_half()?;
        if version != 2 && version != 4 {
            return Err(ElfError::BadInfoVersion(version));
        }
        // The length counts the header fields after the length word itself;
        // a length too short to hold them is malformed.
        let header_rest: u64 = if sixty_four {
            11
        } else {
            7
        };
        if values_length < header_rest {
            return Err(ElfError::BadRange);
        }
        values_length = values_length - header_rest;
        let _abbrev_offset = if sixty_four {
            stream.read_offset()?
        } else {
            stream.read_word()? as u64
        };
        let address_size = stream.read_byte()?;
        if address_size != 4 && address_size != 8 {
            return Err(ElfError::BadAddressSize(address_size));
        }
        Ok((sixty_four, values_length, address_size))
    }

    /// Walks the unit's node entries, returning every type decoded before
    /// the first error together with that error, if any: gaps in coverage
    /// are visible rather than silently dropped.
    pub fn parse(&self) -> (r: (Vec<Type>, Option<ElfError>))
        requires
            self.wf(),
        ensures
            forall|k: int|
                0 <= k < r.0@.len() ==> type_node_wf(#[trigger] r.0@[k], self.abbrevs@),
            self.spec_forest_from(self.values.0 as int, r.0@, 0, r.1),
    {
        let mut stream = Stream::new(self.reader, self.values);
        self.parse_types(&mut stream)
    }

    /// Decodes a sibling list until a zero code, the unit's end, or the
    /// first error.
    #[verifier::rlimit(100)]
    fn parse_types(&self, stream: &mut Stream) -> (r: (Vec<Type>, Option<ElfError>))
        requires
            old(stream).reader == self.reader,
            self.wf(),
        ensures
            final(stream).reader == old(stream).reader,
            final(stream).offset.0 >= old(stream).offset.0,
            forall|k: int|
                0 <= k < r.0@.len() ==> type_node_wf(#[trigger] r.0@[k], self.abbrevs@),
            self.spec_forest_from(old(stream).offset.0 as int, r.0@, 0, r.1),
            r.1 is None ==> final(stream).offset.0 == self.forest_extent(
                old(stream).offset.0 as int,
                r.0@,
                0,
            ),
        decreases span_left(self.reader@, old(stream).offset.0 as int), 1int,
    {
        let mut types: Vec<Type> = Vec::new();
        let n = self.reader.len();
        let ghost mut ps: Seq<int> = seq![old(stream).offset.0 as int];
        loop
            invariant
                stream.reader == self.reader,
                stream.offset.0 >= old(stream).offset.0,
                self.wf(),
                n == self.reader@.len(),
                forall|k: int|
                    0 <= k < types@.len() ==> type_node_wf(#[trigger] types@[k], self.abbrevs@),
                ps.len() == types@.len() + 1,
                ps[0] == old(stream).offset.0 as int,
                ps[types@.len() as int] == stream.offset.0 as int,
                forall|m: int|
                    0 <= m < types@.len() ==> self.spec_node_step(
                        #[trigger] ps[m],
                        types@[m],
                        None,
                    ),
                forall|m: int|
                    0 <= m < types@.len() ==> self.node_extent(#[trigger] ps[m], types@[m])
                        == ps[m + 1],
                forall|m: int|
                    0 <= m < types@.len() ==> (#[trigger] ps[m + 1]) < self.end.0 && ps[m + 1]
                        <= self.reader@.len(),
            decreases
                    if stream.offset.0 < n {
                        n - stream.offset.0
                    } else {
                        0
                    },
        {
            let before = stream.offset.0;
            let ghost glen = types@.len() as int;
            match self.parse_type(stream) {
                (None, None) => {
                    proof {
                        if glen > 0 {
                            assert(ps[(glen - 1) + 1] < self.end.0);
                        }
                        assert(self.spec_forest_from(ps[glen], types@, glen, None));
                        self.lemma_forest_fold(types@, ps, 0, glen, None);
                        assert(self.forest_extent(ps[glen], types@, glen)
                            == stream.offset.0 as int);
                    }
                    return (types, None);
                },
                (None, Some(err)) => {
                    proof {
                        assert(self.spec_forest_from(ps[glen], types@, glen, Some(err)));
                        self.lemma_forest_fold(types@, ps, 0, glen, Some(err));
                    }
                    return (types, Some(err));
                },
                (Some(t), None) => {
                    types.push(t);
                },
                (Some(t), Some(e)) => {
                    types.push(t);
                    proof {
                        assert(self.spec_forest_from(ps[glen], types@, glen, Some(e)));
                        self.lemma_forest_fold(types@, ps, 0, glen, Some(e));
                    }
                    return (types, Some(e));
                },
            }
            if stream.offset.0 >= self.end.0 {
                proof {
                    assert(self.node_extent(ps[glen], types@[glen]) == stream.offset.0 as int);
                    assert(self.spec_forest_from(ps[glen], types@, glen, None));
                    self.lemma_forest_fold(types@, ps, 0, glen, None);
                    assert(self.forest_extent(ps[glen], types@, glen) == self.forest_extent(
                        stream.offset.0 as int,
                        types@,
                        glen + 1,
                    ));
                    assert(self.forest_extent(ps[glen], types@, glen)
                        == stream.offset.0 as int);
                }
                return (types, None);
            }
            if stream.offset.0 <= before || stream.offset.0 > n as u64 {
                // A node always consumes at least its code byte; a walk
                // that stopped advancing inside the buffer is malformed.
                proof {
                    assert(stream.offset.0 > before);
                    assert(self.spec_forest_from(
                        ps[glen],
                        types@,
                        glen,
                        Some(ElfError::ReadOutOfBounds),
                    ));
                    self.lemma_forest_fold(
                        types@,
                        ps,
                        0,
                        glen,
                        Some(ElfError::ReadOutOfBounds),
                    );
                }
                return (types, Some(ElfError::ReadOutOfBounds));
            }
            proof {
                ps = ps.push(stream.offset.0 as int);
            }
        }
    }

    /// Decodes one node: its abbreviation code, its attributes, and its
    /// children when the abbreviation declares them.  A zero code ends the
    /// current sibling list and yields neither a node nor an error.
    fn parse_type(&self, stream: &mut Stream) -> (r: (Option<Type>, Option<ElfError>))
        requires
            old(stream).reader == self.reader,
            self.wf(),
        ensures
            final(stream).reader == old(stream).reader,
            final(stream).offset.0 >= old(stream).offset.0,
            r.0 is Some ==> final(stream).offset.0 > old(stream).offset.0,
            (r.0 is None && r.1 is None) <==> (crate::reader::uleb_at(
                self.reader@,
                old(stream).offset.0 as int,
            ) matches Some((c, _)) && c == 0),
            crate::reader::uleb_at(self.reader@, old(stream).offset.0 as int) matches Some(
                (c, _),
            ) ==> (0 < c < 0x1_0000_0000_0000_0000 && c > self.abbrevs@.len() ==> r.0 is None
                && r.1 == Some(ElfError::BadAbbreviationCode(c as u64))),
            r.0 matches Some(t) ==> (crate::reader::uleb_at(
                self.reader@,
                old(stream).offset.0 as int,
            ) matches Some((c, _)) && 1 <= c <= self.abbrevs@.len() && t.tag == self.abbrevs@[c
                - 1].tag && t.attrs@.len() == self.abbrevs@[c - 1].attrs@.len()
                && (!self.abbrevs@[c - 1].has_children ==> t.children@.len() == 0)
                && type_node_wf(t, self.abbrevs@)),
            (r.0 is None && r.1 is None) ==> (crate::reader::uleb_at(
                self.reader@,
                old(stream).offset.0 as int,
            ) matches Some((c, n1)) && final(stream).offset.0 == n1),
            (r.0 is None && r.1 is Some) ==> self.node_fail(
                old(stream).offset.0 as int,
                r.1->Some_0,
            ),
            r.0 matches Some(t) ==> self.spec_node_step(old(stream).offset.0 as int, t, r.1),
            (r.0 is Some && r.1 is None) ==> final(stream).offset.0 == self.node_extent(
                old(stream).offset.0 as int,
                r.0->Some_0,
            ),
        decreases span_left(self.reader@, old(stream).offset.0 as int), 0int,
    {
        let code = match stream.read_uleb128() {
            Ok(0) => {
                return (None, None);
            },
            Ok(c) => c,
            Err(e) => {
                return (None, Some(e));
            },
        };
        proof {
            crate::reader::lemma_uleb_at_bounds(self.reader@, old(stream).offset.0 as int);
        }
        if code > self.abbrevs.len() as u64 {
            return (None, Some(ElfError::BadAbbreviationCode(code)));
        }
        let index = (code - 1) as usize;
        let attrs = match self.parse_attrs(stream, index) {
            Ok(a) => a,
            Err(e) => {
                return (None, Some(e));
            },
        };
        let tag = self.abbrevs[index].tag;
        if self.abbrevs[index].has_children {
            proof {
                assert(old(stream).offset.0 < self.reader@.len());
                assert(stream.offset.0 > old(stream).offset.0);
            }
            let (children, err) = self.parse_types(stream);
            (Some(Type { tag, attrs, children }), err)
        } else {
            let children: Vec<Type> = Vec::new();
            (Some(Type { tag, attrs, children }), None)
        }
    }

    /// Decodes the attribute list an abbreviation declares, in order.
    #[verifier::rlimit(100)]
    fn parse_attrs(&self, stream: &mut Stream, abbrev_index: usize) -> (r: Result<
        Vec<Attribute>,
        ElfError,
    >)
        requires
            old(stream).reader == self.reader,
            self.wf(),
            abbrev_index < self.abbrevs@.len(),
        ensures
            final(stream).reader == old(stream).reader,
            final(stream).offset.0 >= old(stream).offset.0,
            r matches Ok(v) ==> (v@.len() == self.abbrevs@[abbrev_index as int].attrs@.len() && (
            forall|k: int|
                0 <= k < v@.len() ==> attr_name_of(#[trigger] v@[k])
                    == self.abbrevs@[abbrev_index as int].attrs@[k].name)),
            r matches Ok(v) ==> self.spec_attrs_end(
                old(stream).offset.0 as int,
                self.abbrevs@[abbrev_index as int].attrs@,
                0,
            ) == Some(final(stream).offset.0 as int) && self.attrs_match_from(
                v@,
                old(stream).offset.0 as int,
                self.abbrevs@[abbrev_index as int].attrs@,
                0,
            ),
            r matches Err(e) ==> self.spec_attrs_end(
                old(stream).offset.0 as int,
                self.abbrevs@[abbrev_index as int].attrs@,
                0,
            ) is None && self.attrs_err_ok(
                old(stream).offset.0 as int,
                self.abbrevs@[abbrev_index as int].attrs@,
                0,
                e,
            ),
    {
        let n = self.abbrevs[abbrev_index].attrs.len();
        let mut attrs: Vec<Attribute> = Vec::new();
        let mut k: usize = 0;
        let ghost aseq = self.abbrevs@[abbrev_index as int].attrs@;
        let ghost mut ps: Seq<int> = seq![old(stream).offset.0 as int];
        while k < n
            invariant
                stream.reader == self.reader,
                stream.offset.0 >= old(stream).offset.0,
                n == aseq.len(),
                aseq == self.abbrevs@[abbrev_index as int].attrs@,
                abbrev_index < self.abbrevs@.len(),
                self.wf(),
                k <= n,
                attrs@.len() == k,
                ps.len() == k + 1,
                ps[0] == old(stream).offset.0 as int,
                ps[k as int] == stream.offset.0 as int,
                forall|kk: int|
                    0 <= kk < k ==> attr_name_of(#[trigger] attrs@[kk]) == aseq[kk].name,
                forall|m: int| 0 <= m < k ==> self.attr_ok(#[trigger] ps[m], aseq[m]),
                forall|m: int| 0 <= m < k ==> self.attr_next(#[trigger] ps[m], aseq[m]) == ps[m
                    + 1],
                forall|m: int| 0 <= m < k ==> self.attr_matches(#[trigger] attrs@[m], ps[m], aseq[m]),
            decreases n - k,
        {
            let ae = self.abbrevs[abbrev_index].attrs[k];
            let attr = match self.parse_attr(stream, ae) {
                Ok(a) => a,
                Err(e) => {
                    proof {
                        self.lemma_attrs_fold_fail(aseq, ps, 0, k as int, e);
                    }
                    return Err(e);
                },
            };
            proof {
                assert(attr_name_of(attr) == ae.name);
                ps = ps.push(stream.offset.0 as int);
            }
            attrs.push(attr);
            k = k + 1;
        }
        proof {
            self.lemma_attrs_fold(attrs@, aseq, ps, 0);
        }
        Ok(attrs)
    }

    /// Decodes one attribute according to its declared form: the result
    /// answers for the declared name with the value the form's decode
    /// rules give, a (name, form) pair with no decoder is exactly the
    /// unsupported-attribute error carrying both encodings, and a
    /// supported pair fails only on a bad read, never with that error.
    pub fn parse_attr(&self, stream: &mut Stream, ae: crate::abbrev::AttributeEncoding) -> (r:
        Result<Attribute, ElfError>)
        requires
            old(stream).reader == self.reader,
            self.wf(),
        ensures
            final(stream).reader == old(stream).reader,
            final(stream).offset.0 >= old(stream).offset.0,
            self.attr_contract(r, old(stream).offset.0 as int, final(stream).offset.0 as int, ae),
    {
        if attr_in_early_group(ae.name) {
            self.parse_attr_early(stream, ae)
        } else {
            self.parse_attr_late(stream, ae)
        }
    }

    /// Decodes the first half of the supported attributes.
    fn parse_attr_early(&self, stream: &mut Stream, ae: crate::abbrev::AttributeEncoding) -> (r:
        Result<Attribute, ElfError>)
        requires
            old(stream).reader == self.reader,
            self.wf(),
        ensures
            final(stream).reader == old(stream).reader,
            final(stream).offset.0 >= old(stream).offset.0,
            spec_early_group(ae.name) ==> self.attr_contract(
                r,
                old(stream).offset.0 as int,
                final(stream).offset.0 as int,
                ae,
            ),
            !spec_early_group(ae.name) ==> r == Err::<Attribute, ElfError>(
                ElfError::UnsupportedAttribute(spec_name_code(ae.name), spec_form_code(ae.encoding)),
            ) && *final(stream) == *old(stream),
    {
        match ae.name {
            AttributeName::DW_AT_sibling => match self.parse_ref(stream, ae) {
                Ok(v) => Ok(Attribute::DW_AT_sibling(v)),
                Err(e) => Err(e),
            },
            AttributeName::DW_AT_location => match self.parse_exprloc(stream, ae) {
                Ok(v) => Ok(Attribute::DW_AT_location(v)),
                Err(e) => Err(e),
            },
            AttributeName::DW_AT_name => match self.parse_str(stream, ae) {
                Ok(v) => Ok(Attribute::DW_AT_name(v)),
                Err(e) => Err(e),
            },
            AttributeName::DW_AT_byte_size => match self.parse_u32(stream, ae) {
                Ok(v) => Ok(Attribute::DW_AT_byte_size(v)),
                Err(e) => Err(e),
            },
            AttributeName::DW_AT_stmt_list => match self.parse_u32(stream, ae) {
                Ok(v) => Ok(Attribute::DW_AT_stmt_list(v)),
                Err(e) => Err(e),
            },
            AttributeName::DW_AT_low_pc => match self.parse_addr(stream) {
                Ok(v) => Ok(Attribute::DW_AT_low_pc(v)),
                Err(e) => Err(e),
            },
            AttributeName::DW_AT_high_pc => match self.parse_addr(stream) {
                Ok(v) => Ok(Attribute::DW_AT_high_pc(v)),
                Err(e) => Err(e),
            },
            AttributeName::DW_AT_language => match self.parse_u16(stream, ae) {
                Ok(v) => Ok(Attribute::DW_AT_language(v)),
                Err(e) => Err(e),
            },
            AttributeName::DW_AT_comp_dir => match self.parse_str(stream, ae) {
                Ok(v) => Ok(Attribute::DW_AT_comp_dir(v)),
                Err(e) => Err(e),
            },
            AttributeName::DW_AT_producer => match self.parse_str(stream, ae) {
                Ok(v) => Ok(Attribute::DW_AT_producer(v)),
                Err(e) => Err(e),
            },
            AttributeName::DW_AT_prototyped => match self.parse_flag(stream, ae) {
                Ok(v) => Ok(Attribute::DW_AT_prototyped(v)),
                Err(e) => Err(e),
            },
            _ => Err(
                ElfError::UnsupportedAttribute(name_code(ae.name), form_code(ae.encoding)),
            ),
        }
    }

    /// Decodes the second half of the supported attributes.
    fn parse_attr_late(&self, stream: &mut Stream, ae: crate::abbrev::AttributeEncoding) -> (r:
        Result<Attribute, ElfError>)
        requires
            old(stream).reader == self.reader,
            self.wf(),
        ensures
            final(stream).reader == old(stream).reader,
            final(stream).offset.0 >= old(stream).offset.0,
            !spec_early_group(ae.name) ==> self.attr_contract(
                r,
                old(stream).offset.0 as int,
                final(stream).offset.0 as int,
                ae,
            ),
            spec_early_group(ae.name) ==> r == Err::<Attribute, ElfError>(
                ElfError::UnsupportedAttribute(spec_name_code(ae.name), spec_form_code(ae.encoding)),
            ) && *final(stream) == *old(stream),
    {
        match ae.name {
            AttributeName::DW_AT_data_member_location => match self.parse_exprloc(stream, ae) {
                Ok(v) => Ok(Attribute::DW_AT_data_member_location(v)),
                Err(e) => Err(e),
            },
            AttributeName::DW_AT_decl_column => match self.parse_u32(stream, ae) {
                Ok(v) => Ok(Attribute::DW_AT_decl_column(v)),
                Err(e) => Err(e),
            },
            AttributeName::DW_AT_decl_file => match self.parse_u32(stream, ae) {
                Ok(v) => Ok(Attribute::DW_AT_decl_file(v)),
                Err(e) => Err(e),
            },
            AttributeName::DW_AT_decl_line => match self.parse_u32(stream, ae) {
                Ok(v) => Ok(Attribute::DW_AT_decl_line(v)),
                Err(e) => Err(e),
            },
            AttributeName::DW_AT_declaration => match self.parse_flag(stream, ae) {
                Ok(v) => Ok(Attribute::DW_AT_declaration(v)),
                Err(e) => Err(e),
            },
            AttributeName::DW_AT_encoding => match self.parse_u8(stream, ae) {
                Ok(v) => Ok(Attribute::DW_AT_encoding(v)),
                Err(e) => Err(e),
            },
            AttributeName::DW_AT_external => match self.parse_flag(stream, ae) {
                Ok(v) => Ok(Attribute::DW_AT_external(v)),
                Err(e) => Err(e),
            },
            AttributeName::DW_AT_frame_base => match self.parse_exprloc(stream, ae) {
                Ok(v) => Ok(Attribute::DW_AT_frame_base(v)),
                Err(e) => Err(e),
            },
            AttributeName::DW_AT_type => match self.parse_ref(stream, ae) {
                Ok(v) => Ok(Attribute::DW_AT_type(v)),
                Err(e) => Err(e),
            },
            AttributeName::DW_AT_GNU_all_tail_call_sites => match self.parse_flag(stream, ae) {
                Ok(v) => Ok(Attribute::DW_AT_GNU_all_tail_call_sites(v)),
                Err(e) => Err(e),
            },
            AttributeName::DW_AT_GNU_all_call_sites => match self.parse_flag(stream, ae) {
                Ok(v) => Ok(Attribute::DW_AT_GNU_all_call_sites(v)),
                Err(e) => Err(e),
            },
            _ => Err(
                ElfError::UnsupportedAttribute(name_code(ae.name), form_code(ae.encoding)),
            ),
        }
    }

    /// Decodes a one-byte constant.
    fn parse_u8(&self, stream: &mut Stream, ae: crate::abbrev::AttributeEncoding) -> (r: Result<
        u8,
        ElfError,
    >)
        requires
            old(stream).reader == self.reader,
        ensures
            final(stream).reader == old(stream).reader,
            final(stream).offset.0 >= old(stream).offset.0,
            r is Ok <==> self.u8_ok(old(stream).offset.0 as int, ae.encoding),
            r matches Ok(v) ==> v as int == self.scalar_val(old(stream).offset.0 as int, 1)
                && final(stream).offset.0 == old(stream).offset.0 + 1,
            helper_errors(r, ae, ae.encoding == FormEncoding::DW_FORM_data1),
    {
        match ae.encoding {
            FormEncoding::DW_FORM_data1 => {
                let ghost i = stream.offset.0 as int;
                let v = stream.read_byte()?;
                proof {
                    crate::reader::lemma_word_at_one(self.reader@, i, self.reader.little_endian);
                }
                Ok(v)
            },
            _ => Err(
                ElfError::UnsupportedAttribute(name_code(ae.name), form_code(ae.encoding)),
            ),
        }
    }

    /// Decodes a constant of up to two bytes.
    fn parse_u16(&self, stream: &mut Stream, ae: crate::abbrev::AttributeEncoding) -> (r: Result<
        u16,
        ElfError,
    >)
        requires
            old(stream).reader == self.reader,
        ensures
            final(stream).reader == old(stream).reader,
            final(stream).offset.0 >= old(stream).offset.0,
            r is Ok <==> self.u16_ok(old(stream).offset.0 as int, ae.encoding),
            r matches Ok(v) ==> v as int == self.scalar_val(
                old(stream).offset.0 as int,
                form_width(ae.encoding),
            ) && final(stream).offset.0 == old(stream).offset.0 + form_width(ae.encoding),
            helper_errors(r, ae, u16_form(ae.encoding)),
    {
        match ae.encoding {
            FormEncoding::DW_FORM_data1 => {
                let ghost i = stream.offset.0 as int;
                let v = stream.read_byte()?;
                proof {
                    crate::reader::lemma_word_at_one(self.reader@, i, self.reader.little_endian);
                }
                Ok(v as u16)
            },
            FormEncoding::DW_FORM_data2 => stream.read_half(),
            _ => Err(
                ElfError::UnsupportedAttribute(name_code(ae.name), form_code(ae.encoding)),
            ),
        }
    }

    /// Decodes a constant of up to four bytes.
    fn parse_u32(&self, stream: &mut Stream, ae: crate::abbrev::AttributeEncoding) -> (r: Result<
        u32,
        ElfError,
    >)
        requires
            old(stream).reader == self.reader,
        ensures
            final(stream).reader == old(stream).reader,
            final(stream).offset.0 >= old(stream).offset.0,
            r is Ok <==> self.u32_ok(old(stream).offset.0 as int, ae.encoding),
            r matches Ok(v) ==> v as int == self.scalar_val(
                old(stream).offset.0 as int,
                form_width(ae.encoding),
            ) && final(stream).offset.0 == old(stream).offset.0 + form_width(ae.encoding),
            helper_errors(r, ae, u32_form(ae.encoding)),
    {
        match ae.encoding {
            FormEncoding::DW_FORM_data1 => {
                let ghost i = stream.offset.0 as int;
                let v = stream.read_byte()?;
                proof {
                    crate::reader::lemma_word_at_one(self.reader@, i, self.reader.little_endian);
                }
                Ok(v as u32)
            },
            FormEncoding::DW_FORM_data2 => match stream.read_half() {
                Ok(v) => Ok(v as u32),
                Err(e) => Err(e),
            },
            FormEncoding::DW_FORM_data4 => stream.read_word(),
            _ => Err(
                ElfError::UnsupportedAttribute(name_code(ae.name), form_code(ae.encoding)),
            ),
        }
    }

    /// Decodes a reference to another node, in any of the fixed widths.
    fn parse_ref(&self, stream: &mut Stream, ae: crate::abbrev::AttributeEncoding) -> (r: Result<
        u64,
        ElfError,
    >)
        requires
            old(stream).reader == self.reader,
        ensures
            final(stream).reader == old(stream).reader,
            final(stream).offset.0 >= old(stream).offset.0,
            r is Ok <==> self.ref_ok(old(stream).offset.0 as int, ae.encoding),
            r matches Ok(v) ==> v as int == self.scalar_val(
                old(stream).offset.0 as int,
                form_width(ae.encoding),
            ) && final(stream).offset.0 == old(stream).offset.0 + form_width(ae.encoding),
            helper_errors(r, ae, ref_form(ae.encoding)),
    {
        match ae.encoding {
            FormEncoding::DW_FORM_ref1 => {
                let ghost i = stream.offset.0 as int;
                let v = stream.read_byte()?;
                proof {
                    crate::reader::lemma_word_at_one(self.reader@, i, self.reader.little_endian);
                }
                Ok(v as u64)
            },
            FormEncoding::DW_FORM_ref2 => match stream.read_half() {
                Ok(v) => Ok(v as u64),
                Err(e) => Err(e),
            },
            FormEncoding::DW_FORM_ref4 => match stream.read_word() {
                Ok(v) => Ok(v as u64),
                Err(e) => Err(e),
            },
            FormEncoding::DW_FORM_ref8 => stream.read_xword(),
            _ => Err(
                ElfError::UnsupportedAttribute(name_code(ae.name), form_code(ae.encoding)),
            ),
        }
    }

    /// Decodes a flag: one byte, or present by its existence alone.
    fn parse_flag(&self, stream: &mut Stream, ae: crate::abbrev::AttributeEncoding) -> (r: Result<
        bool,
        ElfError,
    >)
        requires
            old(stream).reader == self.reader,
        ensures
            final(stream).reader == old(stream).reader,
            final(stream).offset.0 >= old(stream).offset.0,
            r is Ok <==> self.flag_ok(old(stream).offset.0 as int, ae.encoding),
            r matches Ok(v) ==> v == self.flag_val(old(stream).offset.0 as int, ae.encoding)
                && final(stream).offset.0 == self.flag_next(
                old(stream).offset.0 as int,
                ae.encoding,
            ),
            helper_errors(r, ae, flag_form(ae.encoding)),
    {
        match ae.encoding {
            FormEncoding::DW_FORM_flag => {
                let byte = stream.read_byte()?;
                Ok(byte != 0)
            },
            FormEncoding::DW_FORM_flag_present => Ok(true),
            _ => Err(
                ElfError::UnsupportedAttribute(name_code(ae.name), form_code(ae.encoding)),
            ),
        }
    }

    /// Decodes a string: inline and null-terminated, or an offset into
    /// `.debug_str`.
    fn parse_str(&self, stream: &mut Stream, ae: crate::abbrev::AttributeEncoding) -> (r: Result<
        String,
        ElfError,
    >)
        requires
            old(stream).reader == self.reader,
        ensures
            final(stream).reader == old(stream).reader,
            final(stream).offset.0 >= old(stream).offset.0,
            r is Ok <==> self.str_ok(old(stream).offset.0 as int, ae.encoding),
            r matches Ok(v) ==> v@ == self.str_chars(old(stream).offset.0 as int, ae.encoding)
                && final(stream).offset.0 == self.str_next(
                old(stream).offset.0 as int,
                ae.encoding,
            ),
            helper_errors(r, ae, str_form(ae.encoding)),
    {
        match ae.encoding {
            FormEncoding::DW_FORM_string => stream.read_string(),
            FormEncoding::DW_FORM_strp => self.parse_strp(stream),
            _ => Err(
                ElfError::UnsupportedAttribute(name_code(ae.name), form_code(ae.encoding)),
            ),
        }
    }

    /// Decodes a location: block forms carry an explicit length prefix
    /// whose expression bytes are skipped, data forms are offsets into the
    /// location-list section.
    fn parse_exprloc(&self, stream: &mut Stream, ae: crate::abbrev::AttributeEncoding) -> (r:
        Result<TypeLoc, ElfError>)
        requires
            old(stream).reader == self.reader,
        ensures
            final(stream).reader == old(stream).reader,
            final(stream).offset.0 >= old(stream).offset.0,
            r is Ok <==> self.exprloc_ok(old(stream).offset.0 as int, ae.encoding),
            r matches Ok(tl) ==> self.exprloc_matches(tl, old(stream).offset.0 as int, ae.encoding)
                && final(stream).offset.0 == self.exprloc_next(
                old(stream).offset.0 as int,
                ae.encoding,
            ),
            helper_errors(r, ae, exprloc_form(ae.encoding)),
    {
        let ghost i = stream.offset.0 as int;
        match ae.encoding {
            FormEncoding::DW_FORM_block1 | FormEncoding::DW_FORM_block2
                | FormEncoding::DW_FORM_block4 | FormEncoding::DW_FORM_block => {
                let length: u64 = match ae.encoding {
                    FormEncoding::DW_FORM_block1 => {
                        let v = stream.read_byte()?;
                        proof {
                            crate::reader::lemma_word_at_one(
                                self.reader@,
                                i,
                                self.reader.little_endian,
                            );
                        }
                        v as u64
                    },
                    FormEncoding::DW_FORM_block2 => stream.read_half()? as u64,
                    FormEncoding::DW_FORM_block4 => stream.read_word()? as u64,
                    _ => stream.read_uleb128()?,
                };
                let after = stream.offset;
                if length > u64::MAX - after.0 {
                    return Err(ElfError::BadRange);
                }
                stream.offset = Offset(after.0 + length);
                Ok(TypeLoc::ExprLoc(after, length))
            },
            FormEncoding::DW_FORM_data1 => {
                let v = stream.read_byte()?;
                proof {
                    crate::reader::lemma_word_at_one(self.reader@, i, self.reader.little_endian);
                }
                Ok(TypeLoc::LocListPtr(v as u64))
            },
            FormEncoding::DW_FORM_data2 => Ok(TypeLoc::LocListPtr(stream.read_half()? as u64)),
            FormEncoding::DW_FORM_data4 => Ok(TypeLoc::LocListPtr(stream.read_word()? as u64)),
            FormEncoding::DW_FORM_data8 => Ok(TypeLoc::LocListPtr(stream.read_xword()?)),
            _ => Err(
                ElfError::UnsupportedAttribute(name_code(ae.name), form_code(ae.encoding)),
            ),
        }
    }

    /// Reads an address of the unit's declared address size.
    fn parse_addr(&self, stream: &mut Stream) -> (r: Result<u64, ElfError>)
        requires
            old(stream).reader == self.reader,
            self.wf(),
        ensures
            final(stream).reader == old(stream).reader,
            final(stream).offset.0 >= old(stream).offset.0,
            r is Ok <==> self.addr_ok(old(stream).offset.0 as int),
            r matches Ok(v) ==> v as int == self.scalar_val(
                old(stream).offset.0 as int,
                self.addr_size as int,
            ) && final(stream).offset.0 == old(stream).offset.0 + self.addr_size,
            r matches Err(e) ==> e == ElfError::ReadOutOfBounds,
    {
        if self.addr_size == 4 {
            match stream.read_word() {
                Ok(v) => Ok(v as u64),
                Err(e) => Err(e),
            }
        } else {
            stream.read_xword()
        }
    }

    /// Reads an offset into `.debug_str` and the string it points at.
    fn parse_strp(&self, stream: &mut Stream) -> (r: Result<String, ElfError>)
        requires
            old(stream).reader == self.reader,
        ensures
            final(stream).reader == old(stream).reader,
            final(stream).offset.0 >= old(stream).offset.0,
            r is Ok <==> self.strp_ok(old(stream).offset.0 as int),
            r matches Ok(v) ==> v@ == self.nul_chars(self.strp_pos(old(stream).offset.0 as int))
                && final(stream).offset.0 == old(stream).offset.0 + self.offset_width(),
            r matches Err(e) ==> (e == ElfError::ReadOutOfBounds || e == ElfError::NoDebugStr
                || e == ElfError::BadRange),
    {
        let delta = if self.sixty_four {
            stream.read_xword()?
        } else {
            stream.read_word()? as u64
        };
        let start = match self.strings {
            Some(start) => start,
            None => {
                return Err(ElfError::NoDebugStr);
            },
        };
        if delta > u64::MAX - start.0 {
            return Err(ElfError::BadRange);
        }
        let mut side = Stream::new(self.reader, Offset(start.0 + delta));
        side.read_string()
    }
}

/// The numeric code an attribute name is reported under in an
/// unsupported-combination error.
pub fn name_code(name: AttributeName) -> (r: u64)
    ensures
        r == spec_name_code(name),
{
    match name {
        AttributeName::DW_AT_sibling => 0x01,
        AttributeName::DW_AT_location => 0x02,
        AttributeName::DW_AT_name => 0x03,
        AttributeName::DW_AT_ordering => 0x09,
        AttributeName::DW_AT_byte_size => 0x0b,
        AttributeName::DW_AT_bit_offset => 0x0c,
        AttributeName::DW_AT_bit_size => 0x0d,
        AttributeName::DW_AT_stmt_list => 0x10,
        AttributeName::DW_AT_low_pc => 0x11,
        AttributeName::DW_AT_high_pc => 0x12,
        AttributeName::DW_AT_language => 0x13,
        AttributeName::DW_AT_discr => 0x15,
        AttributeName::DW_AT_discr_value => 0x16,
        AttributeName::DW_AT_visibility => 0x17,
        AttributeName::DW_AT_import => 0x18,
        AttributeName::DW_AT_string_length => 0x19,
        AttributeName::DW_AT_common_reference => 0x1a,
        AttributeName::DW_AT_comp_dir => 0x1b,
        AttributeName::DW_AT_const_value => 0x1c,
        AttributeName::DW_AT_containing_type => 0x1d,
        AttributeName::DW_AT_default_value => 0x1e,
        AttributeName::DW_AT_inline => 0x20,
        AttributeName::DW_AT_is_optional => 0x21,
        AttributeName::DW_AT_lower_bound => 0x22,
        AttributeName::DW_AT_producer => 0x25,
        AttributeName::DW_AT_prototyped => 0x27,
        AttributeName::DW_AT_return_addr => 0x2a,
        AttributeName::DW_AT_start_scope => 0x2c,
        AttributeName::DW_AT_bit_stride => 0x2e,
        AttributeName::DW_AT_upper_bound => 0x2f,
        AttributeName::DW_AT_abstract_origin => 0x31,
        AttributeName::DW_AT_accessibility => 0x32,
        AttributeName::DW_AT_address_class => 0x33,
        AttributeName::DW_AT_artificial => 0x34,
        AttributeName::DW_AT_base_types => 0x35,
        AttributeName::DW_AT_calling_convention => 0x36,
        AttributeName::DW_AT_count => 0x37,
        AttributeName::DW_AT_data_member_location => 0x38,
        AttributeName::DW_AT_decl_column => 0x39,
        AttributeName::DW_AT_decl_file => 0x3a,
        AttributeName::DW_AT_decl_line => 0x3b,
        AttributeName::DW_AT_declaration => 0x3c,
        AttributeName::DW_AT_discr_list => 0x3d,
        AttributeName::DW_AT_encoding => 0x3e,
        AttributeName::DW_AT_external => 0x3f,
        AttributeName::DW_AT_frame_base => 0x40,
        AttributeName::DW_AT_friend => 0x41,
        AttributeName::DW_AT_identifier_case => 0x42,
        AttributeName::DW_AT_macro_info => 0x43,
        AttributeName::DW_AT_namelist_item => 0x44,
        AttributeName::DW_AT_priority => 0x45,
        AttributeName::DW_AT_segment => 0x46,
        AttributeName::DW_AT_specification => 0x47,
        AttributeName::DW_AT_static_link => 0x48,
        AttributeName::DW_AT_type => 0x49,
        AttributeName::DW_AT_use_location => 0x4a,
        AttributeName::DW_AT_variable_parameter => 0x4b,
        AttributeName::DW_AT_virtuality => 0x4c,
        AttributeName::DW_AT_vtable_elem_location => 0x4d,
        AttributeName::DW_AT_allocated => 0x4e,
        AttributeName::DW_AT_associated => 0x4f,
        AttributeName::DW_AT_data_location => 0x50,
        AttributeName::DW_AT_byte_stride => 0x51,
        AttributeName::DW_AT_entry_pc => 0x52,
        AttributeName::DW_AT_use_UTF8 => 0x53,
        AttributeName::DW_AT_extension => 0x54,
        AttributeName::DW_AT_ranges => 0x55,
        AttributeName::DW_AT_trampoline => 0x56,
        AttributeName::DW_AT_call_column => 0x57,
        AttributeName::DW_AT_call_file => 0x58,
        AttributeName::DW_AT_call_line => 0x59,
        AttributeName::DW_AT_description => 0x5a,
        AttributeName::DW_AT_binary_scale => 0x5b,
        AttributeName::DW_AT_decimal_scale => 0x5c,
        AttributeName::DW_AT_small => 0x5d,
        AttributeName::DW_AT_decimal_sign => 0x5e,
        AttributeName::DW_AT_digit_count => 0x5f,
        AttributeName::DW_AT_picture_string => 0x60,
        AttributeName::DW_AT_mutable => 0x61,
        AttributeName::DW_AT_threads_scaled => 0x62,
        AttributeName::DW_AT_explicit => 0x63,
        AttributeName::DW_AT_object_pointer => 0x64,
        AttributeName::DW_AT_endianity => 0x65,
        AttributeName::DW_AT_elemental => 0x66,
        AttributeName::DW_AT_pure => 0x67,
        AttributeName::DW_AT_recursive => 0x68,
        AttributeName::DW_AT_signature => 0x69,
        AttributeName::DW_AT_main_subprogram => 0x6a,
        AttributeName::DW_AT_data_bit_offset => 0x6b,
        AttributeName::DW_AT_const_expr => 0x6c,
        AttributeName::DW_AT_enum_class => 0x6d,
        AttributeName::DW_AT_linkage_name => 0x6e,
        AttributeName::DW_AT_GNU_all_tail_call_sites => 0x2116,
        AttributeName::DW_AT_GNU_all_call_sites => 0x2117,
        AttributeName::DW_AT_user => 0x2000,
    }
}

/// The numeric code a form is reported under in an unsupported-combination
/// error.
pub fn form_code(encoding: FormEncoding) -> (r: u64)
    ensures
        r == spec_form_code(encoding),
{
    match encoding {
        FormEncoding::DW_FORM_addr => 0x01,
        FormEncoding::DW_FORM_block2 => 0x03,
        FormEncoding::DW_FORM_block4 => 0x04,
        FormEncoding::DW_FORM_data2 => 0x05,
        FormEncoding::DW_FORM_data4 => 0x06,
        FormEncoding::DW_FORM_data8 => 0x07,
        FormEncoding::DW_FORM_string => 0x08,
        FormEncoding::DW_FORM_block => 0x09,
        FormEncoding::DW_FORM_block1 => 0x0a,
        FormEncoding::DW_FORM_data1 => 0x0b,
        FormEncoding::DW_FORM_flag => 0x0c,
        FormEncoding::DW_FORM_sdata => 0x0d,
        FormEncoding::DW_FORM_strp => 0x0e,
        FormEncoding::DW_FORM_udata => 0x0f,
        FormEncoding::DW_FORM_ref_addr => 0x10,
        FormEncoding::DW_FORM_ref1 => 0x11,
        FormEncoding::DW_FORM_ref2 => 0x12,
        FormEncoding::DW_FORM_ref4 => 0x13,
        FormEncoding::DW_FORM_ref8 => 0x14,
        FormEncoding::DW_FORM_ref_udata => 0x15,
        FormEncoding::DW_FORM_indirect => 0x16,
        FormEncoding::DW_FORM_sec_offset => 0x17,
        FormEncoding::DW_FORM_exprloc => 0x18,
        FormEncoding::DW_FORM_flag_present => 0x19,
    }
}

/// The attribute names `parse_attr` routes to its first helper.
pub open spec fn spec_early_group(name: AttributeName) -> bool {
    ||| name == AttributeName::DW_AT_sibling
    ||| name == AttributeName::DW_AT_location
    ||| name == AttributeName::DW_AT_name
    ||| name == AttributeName::DW_AT_byte_size
    ||| name == AttributeName::DW_AT_stmt_list
    ||| name == AttributeName::DW_AT_low_pc
    ||| name == AttributeName::DW_AT_high_pc
    ||| name == AttributeName::DW_AT_language
    ||| name == AttributeName::DW_AT_comp_dir
    ||| name == AttributeName::DW_AT_producer
    ||| name == AttributeName::DW_AT_prototyped
}

/// Routes an attribute name to the helper that decodes it.
fn attr_in_early_group(name: AttributeName) -> (r: bool)
    ensures
        r == spec_early_group(name),
{
    match name {
        AttributeName::DW_AT_sibling => true,
        AttributeName::DW_AT_location => true,
        AttributeName::DW_AT_name => true,
        AttributeName::DW_AT_byte_size => true,
        AttributeName::DW_AT_stmt_list => true,
        AttributeName::DW_AT_low_pc => true,
        AttributeName::DW_AT_high_pc => true,
        AttributeName::DW_AT_language => true,
        AttributeName::DW_AT_comp_dir => true,
        AttributeName::DW_AT_producer => true,
        AttributeName::DW_AT_prototyped => true,
        _ => false,
    }
}

/// The numeric code each attribute name is reported under.
pub open spec fn spec_name_code(v: AttributeName) -> u64 {
    if v == AttributeName::DW_AT_sibling {
        0x01
    } else if v == AttributeName::DW_AT_location {
        0x02
    } else if v == AttributeName::DW_AT_name {
        0x03
    } else if v == AttributeName::DW_AT_ordering {
        0x09
    } else if v == AttributeName::DW_AT_byte_size {
        0x0b
    } else if v == AttributeName::DW_AT_bit_offset {
        0x0c
    } else if v == AttributeName::DW_AT_bit_size {
        0x0d
    } else if v == AttributeName::DW_AT_stmt_list {
        0x10
    } else if v == AttributeName::DW_AT_low_pc {
        0x11
    } else if v == AttributeName::DW_AT_high_pc {
        0x12
    } else if v == AttributeName::DW_AT_language {
        0x13
    } else if v == AttributeName::DW_AT_discr {
        0x15
    } else if v == AttributeName::DW_AT_discr_value {
        0x16
    } else if v == AttributeName::DW_AT_visibility {
        0x17
    } else if v == AttributeName::DW_AT_import {
        0x18
    } else if v == AttributeName::DW_AT_string_length {
        0x19
    } else if v == AttributeName::DW_AT_common_reference {
        0x1a
    } else if v == AttributeName::DW_AT_comp_dir {
        0x1b
    } else if v == AttributeName::DW_AT_const_value {
        0x1c
    } else if v == AttributeName::DW_AT_containing_type {
        0x1d
    } else if v == AttributeName::DW_AT_default_value {
        0x1e
    } else if v == AttributeName::DW_AT_inline {
        0x20
    } else if v == AttributeName::DW_AT_is_optional {
        0x21
    } else if v == AttributeName::DW_AT_lower_bound {
        0x22
    } else if v == AttributeName::DW_AT_producer {
        0x25
    } else if v == AttributeName::DW_AT_prototyped {
        0x27
    } else if v == AttributeName::DW_AT_return_addr {
        0x2a
    } else if v == AttributeName::DW_AT_start_scope {
        0x2c
    } else if v == AttributeName::DW_AT_bit_stride {
        0x2e
    } else if v == AttributeName::DW_AT_upper_bound {
        0x2f
    } else if v == AttributeName::DW_AT_abstract_origin {
        0x31
    } else if v == AttributeName::DW_AT_accessibility {
        0x32
    } else if v == AttributeName::DW_AT_address_class {
        0x33
    } else if v == AttributeName::DW_AT_artificial {
        0x34
    } else if v == AttributeName::DW_AT_base_types {
        0x35
    } else if v == AttributeName::DW_AT_calling_convention {
        0x36
    } else if v == AttributeName::DW_AT_count {
        0x37
    } else if v == AttributeName::DW_AT_data_member_location {
        0x38
    } else if v == AttributeName::DW_AT_decl_column {
        0x39
    } else if v == AttributeName::DW_AT_decl_file {
        0x3a
    } else if v == AttributeName::DW_AT_decl_line {
        0x3b
    } else if v == AttributeName::DW_AT_declaration {
        0x3c
    } else if v == AttributeName::DW_AT_discr_list {
        0x3d
    } else if v == AttributeName::DW_AT_encoding {
        0x3e
    } else if v == AttributeName::DW_AT_external {
        0x3f
    } else if v == AttributeName::DW_AT_frame_base {
        0x40
    } else if v == AttributeName::DW_AT_friend {
        0x41
    } else if v == AttributeName::DW_AT_identifier_case {
        0x42
    } else if v == AttributeName::DW_AT_macro_info {
        0x43
    } else if v == AttributeName::DW_AT_namelist_item {
        0x44
    } else if v == AttributeName::DW_AT_priority {
        0x45
    } else if v == AttributeName::DW_AT_segment {
        0x46
    } else if v == AttributeName::DW_AT_specification {
        0x47
    } else if v == AttributeName::DW_AT_static_link {
        0x48
    } else if v == AttributeName::DW_AT_type {
        0x49
    } else if v == AttributeName::DW_AT_use_location {
        0x4a
    } else if v == AttributeName::DW_AT_variable_parameter {
        0x4b
    } else if v == AttributeName::DW_AT_virtuality {
        0x4c
    } else if v == AttributeName::DW_AT_vtable_elem_location {
        0x4d
    } else if v == AttributeName::DW_AT_allocated {
        0x4e
    } else if v == AttributeName::DW_AT_associated {
        0x4f
    } else if v == AttributeName::DW_AT_data_location {
        0x50
    } else if v == AttributeName::DW_AT_byte_stride {
        0x51
    } else if v == AttributeName::DW_AT_entry_pc {
        0x52
    } else if v == AttributeName::DW_AT_use_UTF8 {
        0x53
    } else if v == AttributeName::DW_AT_extension {
        0x54
    } else if v == AttributeName::DW_AT_ranges {
        0x55
    } else if v == AttributeName::DW_AT_trampoline {
        0x56
    } else if v == AttributeName::DW_AT_call_column {
        0x57
    } else if v == AttributeName::DW_AT_call_file {
        0x58
    } else if v == AttributeName::DW_AT_call_line {
        0x59
    } else if v == AttributeName::DW_AT_description {
        0x5a
    } else if v == AttributeName::DW_AT_binary_scale {
        0x5b
    } else if v == AttributeName::DW_AT_decimal_scale {
        0x5c
    } else if v == AttributeName::DW_AT_small {
        0x5d
    } else if v == AttributeName::DW_AT_decimal_sign {
        0x5e
    } else if v == AttributeName::DW_AT_digit_count {
        0x5f
    } else if v == AttributeName::DW_AT_picture_string {
        0x60
    } else if v == AttributeName::DW_AT_mutable {
        0x61
    } else if v == AttributeName::DW_AT_threads_scaled {
        0x62
    } else if v == AttributeName::DW_AT_explicit {
        0x63
    } else if v == AttributeName::DW_AT_object_pointer {
        0x64
    } else if v == AttributeName::DW_AT_endianity {
        0x65
    } else if v == AttributeName::DW_AT_elemental {
        0x66
    } else if v == AttributeName::DW_AT_pure {
        0x67
    } else if v == AttributeName::DW_AT_recursive {
        0x68
    } else if v == AttributeName::DW_AT_signature {
        0x69
    } else if v == AttributeName::DW_AT_main_subprogram {
        0x6a
    } else if v == AttributeName::DW_AT_data_bit_offset {
        0x6b
    } else if v == AttributeName::DW_AT_const_expr {
        0x6c
    } else if v == AttributeName::DW_AT_enum_class {
        0x6d
    } else if v == AttributeName::DW_AT_linkage_name {
        0x6e
    } else if v == AttributeName::DW_AT_GNU_all_tail_call_sites {
        0x2116
    } else if v == AttributeName::DW_AT_GNU_all_call_sites {
        0x2117
    } else {
        0x2000
    }
}

/// The numeric code each form is reported under.
pub open spec fn spec_form_code(v: FormEncoding) -> u64 {
    if v == FormEncoding::DW_FORM_addr {
        0x01
    } else if v == FormEncoding::DW_FORM_block2 {
        0x03
    } else if v == FormEncoding::DW_FORM_block4 {
        0x04
    } else if v == FormEncoding::DW_FORM_data2 {
        0x05
    } else if v == FormEncoding::DW_FORM_data4 {
        0x06
    } else if v == FormEncoding::DW_FORM_data8 {
        0x07
    } else if v == FormEncoding::DW_FORM_string {
        0x08
    } else if v == FormEncoding::DW_FORM_block {
        0x09
    } else if v == FormEncoding::DW_FORM_block1 {
        0x0a
    } else if v == FormEncoding::DW_FORM_data1 {
        0x0b
    } else if v == FormEncoding::DW_FORM_flag {
        0x0c
    } else if v == FormEncoding::DW_FORM_sdata {
        0x0d
    } else if v == FormEncoding::DW_FORM_strp {
        0x0e
    } else if v == FormEncoding::DW_FORM_udata {
        0x0f
    } else if v == FormEncoding::DW_FORM_ref_addr {
        0x10
    } else if v == FormEncoding::DW_FORM_ref1 {
        0x11
    } else if v == FormEncoding::DW_FORM_ref2 {
        0x12
    } else if v == FormEncoding::DW_FORM_ref4 {
        0x13
    } else if v == FormEncoding::DW_FORM_ref8 {
        0x14
    } else if v == FormEncoding::DW_FORM_ref_udata {
        0x15
    } else if v == FormEncoding::DW_FORM_indirect {
        0x16
    } else if v == FormEncoding::DW_FORM_sec_offset {
        0x17
    } else if v == FormEncoding::DW_FORM_exprloc {
        0x18
    } else {
        0x19
    }
}

} // verus!
