//! The abbreviation tables of `.debug_abbrev`: they declare, for each
//! abbreviation code, which tag a node carries and how its attributes are
//! encoded in `.debug_info`.

use vstd::prelude::*;
use crate::ElfError;
use crate::dwarf::{AttributeName, FormEncoding, Tag, spec_attribute_name, spec_form, spec_tag};
use crate::reader::{Stream, lemma_uleb_at_bounds, uleb_at};

verus! {

/// One abbreviation: the node tag, whether subsequent entries are the
/// node's children, and the attribute list's encodings.
pub struct Abbreviation {
    pub tag: Tag,
    /// If true the entries that follow the node are its children, until a
    /// null entry; otherwise they are siblings.
    pub has_children: bool,
    pub attrs: Vec<AttributeEncoding>,
}

/// One attribute declaration: which attribute, and how its value is
/// encoded.
#[derive(Clone, Copy, Debug, Eq, PartialEq, Structural)]
pub struct AttributeEncoding {
    pub name: AttributeName,
    pub encoding: FormEncoding,
}

/// The (name, form) code pairs of an attribute list starting at `i`,
/// terminated by a (0, 0) pair, together with the position after the
/// terminator.  `None` when the list runs past the end of the buffer.
pub open spec fn spec_attr_pairs(b: Seq<u8>, i: int) -> Option<(Seq<(int, int)>, int)>
    decreases b.len() - i,
    via spec_attr_pairs_decreases
{
    match uleb_at(b, i) {
        None => None,
        Some((name, n1)) => match uleb_at(b, n1) {
            None => None,
            Some((formv, n2)) => {
                if name == 0 && formv == 0 {
                    Some((Seq::empty(), n2))
                } else {
                    match spec_attr_pairs(b, n2) {
                        None => None,
                        Some((rest, e)) => Some((seq![(name, formv)] + rest, e)),
                    }
                }
            },
        },
    }
}

#[via_fn]
proof fn spec_attr_pairs_decreases(b: Seq<u8>, i: int) {
    lemma_uleb_at_bounds(b, i);
    match uleb_at(b, i) {
        None => {},
        Some((name, n1)) => {
            lemma_uleb_at_bounds(b, n1);
        },
    }
}

/// Every pair of an attribute list fits in 64 bits and decodes to a known
/// attribute name and form.
pub open spec fn pairs_valid(pairs: Seq<(int, int)>) -> bool {
    forall|k: int|
        0 <= k < pairs.len() ==> {
            &&& 0 <= (#[trigger] pairs[k]).0 < 0x1_0000_0000_0000_0000
            &&& 0 <= pairs[k].1 < 0x1_0000_0000_0000_0000
            &&& spec_attribute_name(pairs[k].0 as u64) is Some
            &&& spec_form(pairs[k].1 as u64) is Some
        }
}

/// Whether the abbreviation at `i` decodes in full: its code fits, and
/// unless the code is the terminating zero, its tag, children flag, and
/// attribute list all decode.
pub open spec fn spec_abbrev_ok(b: Seq<u8>, i: int) -> bool {
    &&& uleb_at(b, i) matches Some((code, n1))
    &&& (uleb_at(b, i) matches Some((code, n1)) ==> code < 0x1_0000_0000_0000_0000 && (code == 0
        || {
        &&& uleb_at(b, n1) matches Some((tagv, n2))
        &&& (uleb_at(b, n1) matches Some((tagv, n2)) ==> {
            &&& tagv < 0x1_0000_0000_0000_0000
            &&& spec_tag(tagv as u64) is Some
            &&& n2 < b.len()
            &&& spec_attr_pairs(b, n2 + 1) matches Some((pairs, _))
            &&& (spec_attr_pairs(b, n2 + 1) matches Some((pairs, _)) ==> pairs_valid(pairs))
        })
    }))
}

impl Abbreviation {
    /// Decodes one abbreviation, or `None` for the zero code that ends a
    /// compilation unit's table.
    pub fn new(s: &mut Stream) -> (r: Result<Option<Self>, ElfError>)
        ensures
            final(s).reader == old(s).reader,
            r is Ok <==> spec_abbrev_ok(old(s).reader@, old(s).offset.0 as int),
            r matches Ok(opt) ==> (opt matches Some(a) ==> abbrev_view(a) == spec_abbrev_at(
                old(s).reader@,
                old(s).offset.0 as int,
            ) && final(s).offset.0 == spec_abbrev_end(old(s).reader@, old(s).offset.0 as int)),
            r matches Ok(opt) ==> (uleb_at(old(s).reader@, old(s).offset.0 as int) matches Some(
                (code, n1),
            ) && {
                &&& (opt is None <==> code == 0)
                &&& (opt is None ==> final(s).offset.0 == n1)
                &&& (opt matches Some(a) ==> {
                    &&& uleb_at(old(s).reader@, n1) matches Some((tagv, n2))
                    &&& (uleb_at(old(s).reader@, n1) matches Some((tagv, n2)) ==> {
                        &&& Some(a.tag) == spec_tag(tagv as u64)
                        &&& a.has_children == (old(s).reader@[n2] != 0)
                        &&& spec_attr_pairs(old(s).reader@, n2 + 1) matches Some((pairs, e))
                        &&& (spec_attr_pairs(old(s).reader@, n2 + 1) matches Some((pairs, e))
                            ==> {
                            &&& a.attrs@.len() == pairs.len()
                            &&& (forall|k: int|
                                0 <= k < pairs.len() ==> Some(
                                    (#[trigger] a.attrs@[k]).name,
                                ) == spec_attribute_name(pairs[k].0 as u64) && Some(
                                    a.attrs@[k].encoding,
                                ) == spec_form(pairs[k].1 as u64))
                            &&& final(s).offset.0 == e
                        })
                    })
                })
            }),
    {
        let ghost b = s.reader@;
        let ghost r0 = *s.reader;
        let ghost start = s.offset.0 as int;
        let code = s.read_uleb128()?;
        if code == 0 {
            return Ok(None);
        }
        let tagv = s.read_uleb128()?;
        let tag = Tag::from_u64(tagv)?;
        let child_byte = s.read_byte()?;
        let has_children = child_byte != 0;
        let ghost pairs_start = s.offset.0 as int;
        let mut attrs: Vec<AttributeEncoding> = Vec::new();
        let ghost mut codes: Seq<(int, int)> = Seq::empty();
        proof {
            assert(codes + Seq::<(int, int)>::empty() =~= codes);
        }
        loop
            invariant
                *s.reader == r0,
                b == r0@,
                spec_attr_pairs(b, pairs_start) == pairs_concat(
                    codes,
                    spec_attr_pairs(b, s.offset.0 as int),
                ),
                attrs@.len() == codes.len(),
                forall|k: int|
                    0 <= k < codes.len() ==> {
                        &&& 0 <= (#[trigger] codes[k]).0 < 0x1_0000_0000_0000_0000
                        &&& 0 <= codes[k].1 < 0x1_0000_0000_0000_0000
                    },
                forall|k: int|
                    0 <= k < codes.len() ==> {
                        &&& Some((#[trigger] attrs@[k]).name) == spec_attribute_name(
                            codes[k].0 as u64,
                        )
                        &&& Some(attrs@[k].encoding) == spec_form(codes[k].1 as u64)
                    },
            decreases b.len() - s.offset.0,
        {
            let ghost cur = s.offset.0 as int;
            let nv = match s.read_uleb128() {
                Ok(v) => v,
                Err(e) => {
                    proof {
                        lemma_invalid_head(b, pairs_start, codes, cur);
                    }
                    return Err(e);
                },
            };
            let ghost n1 = s.offset.0 as int;
            let ev = match s.read_uleb128() {
                Ok(v) => v,
                Err(e) => {
                    proof {
                        lemma_invalid_head(b, pairs_start, codes, cur);
                    }
                    return Err(e);
                },
            };
            let ghost n2 = s.offset.0 as int;
            proof {
                lemma_uleb_at_bounds(b, cur);
                lemma_uleb_at_bounds(b, n1);
            }
            if nv == 0 && ev == 0 {
                proof {
                    assert(spec_attr_pairs(b, cur) == Some((Seq::<(int, int)>::empty(), n2)));
                    assert(codes + Seq::<(int, int)>::empty() =~= codes);
                    assert(spec_attr_pairs(b, pairs_start) == Some((codes, n2)));
                    assert(pairs_valid(codes)) by {
                        assert forall|k: int| 0 <= k < codes.len() implies {
                            &&& 0 <= (#[trigger] codes[k]).0 < 0x1_0000_0000_0000_0000
                            &&& 0 <= codes[k].1 < 0x1_0000_0000_0000_0000
                            &&& spec_attribute_name(codes[k].0 as u64) is Some
                            &&& spec_form(codes[k].1 as u64) is Some
                        } by {
                            assert(Some(attrs@[k].name) == spec_attribute_name(
                                codes[k].0 as u64,
                            ));
                            assert(Some(attrs@[k].encoding) == spec_form(codes[k].1 as u64));
                        }
                    }
                    assert(attrs@ =~= pairs_to_encodings(codes)) by {
                        assert forall|k: int| 0 <= k < codes.len() implies attrs@[k]
                            == pairs_to_encodings(codes)[k] by {
                            assert(Some(attrs@[k].name) == spec_attribute_name(
                                codes[k].0 as u64,
                            ));
                            assert(Some(attrs@[k].encoding) == spec_form(codes[k].1 as u64));
                        }
                    }
                }
                return Ok(Some(Abbreviation { tag, has_children, attrs }));
            }
            let name = match AttributeName::from_u64(nv) {
                Ok(v) => v,
                Err(e) => {
                    proof {
                        lemma_invalid_head(b, pairs_start, codes, cur);
                    }
                    return Err(e);
                },
            };
            let encoding = match FormEncoding::from_u64(ev) {
                Ok(v) => v,
                Err(e) => {
                    proof {
                        lemma_invalid_head(b, pairs_start, codes, cur);
                    }
                    return Err(e);
                },
            };
            attrs.push(AttributeEncoding { name, encoding });
            proof {
                match spec_attr_pairs(b, n2) {
                    None => {},
                    Some((rest, e)) => {
                        assert(spec_attr_pairs(b, cur) == Some(
                            (seq![(nv as int, ev as int)] + rest, e),
                        ));
                        assert(codes + (seq![(nv as int, ev as int)] + rest) =~= codes.push(
                            (nv as int, ev as int),
                        ) + rest);
                    },
                }
                codes = codes.push((nv as int, ev as int));
            }
        }
    }
}

/// If the pair list at `cur` is absent or begins with an undecodable pair,
/// the whole list from `pairs_start` is absent or invalid.
proof fn lemma_invalid_head(b: Seq<u8>, pairs_start: int, codes: Seq<(int, int)>, cur: int)
    requires
        spec_attr_pairs(b, pairs_start) == pairs_concat(codes, spec_attr_pairs(b, cur)),
        spec_attr_pairs(b, cur) matches Some((rest, _)) ==> rest.len() > 0 && !({
            &&& 0 <= rest[0].0 < 0x1_0000_0000_0000_0000
            &&& 0 <= rest[0].1 < 0x1_0000_0000_0000_0000
            &&& spec_attribute_name(rest[0].0 as u64) is Some
            &&& spec_form(rest[0].1 as u64) is Some
        }),
    ensures
        spec_attr_pairs(b, pairs_start) matches Some((pairs, _)) ==> !pairs_valid(pairs),
        spec_attr_pairs(b, cur) is None ==> spec_attr_pairs(b, pairs_start) is None,
{
    match spec_attr_pairs(b, cur) {
        None => {},
        Some((rest, e)) => {
            match spec_attr_pairs(b, pairs_start) {
                None => {},
                Some((pairs, e2)) => {
                    assert(pairs == codes + rest);
                    assert(pairs[codes.len() as int] == rest[0]);
                },
            }
        },
    }
}

/// The numeric (name, form) codes an attribute list re-encodes to; used
/// Prepends already-decoded pairs to a pending tail of pairs.
pub open spec fn pairs_concat(a: Seq<(int, int)>, o: Option<(Seq<(int, int)>, int)>) -> Option<
    (Seq<(int, int)>, int),
> {
    match o {
        None => None,
        Some((r, e)) => Some((a + r, e)),
    }
}


/// A decoded attribute list always ends after its start and inside the
/// buffer.
pub proof fn lemma_attr_pairs_bounds(b: Seq<u8>, i: int)
    ensures
        spec_attr_pairs(b, i) matches Some((_, e)) ==> i < e <= b.len(),
    decreases b.len() - i,
{
    lemma_uleb_at_bounds(b, i);
    match uleb_at(b, i) {
        None => {},
        Some((name, n1)) => {
            lemma_uleb_at_bounds(b, n1);
            match uleb_at(b, n1) {
                None => {},
                Some((formv, n2)) => {
                    if !(name == 0 && formv == 0) {
                        lemma_attr_pairs_bounds(b, n2);
                    }
                },
            }
        },
    }
}

/// The view of an abbreviation a contract can speak about.
pub open spec fn abbrev_view(a: Abbreviation) -> (Tag, bool, Seq<AttributeEncoding>) {
    (a.tag, a.has_children, a.attrs@)
}

/// The encodings a list of (name, form) code pairs decodes to.
pub open spec fn pairs_to_encodings(pairs: Seq<(int, int)>) -> Seq<AttributeEncoding> {
    Seq::new(
        pairs.len(),
        |k: int|
            AttributeEncoding {
                name: spec_attribute_name(pairs[k].0 as u64).unwrap(),
                encoding: spec_form(pairs[k].1 as u64).unwrap(),
            },
    )
}

/// The decoded view of the abbreviation at `i`; meaningful when
/// `spec_abbrev_ok` holds there with a nonzero code.
pub open spec fn spec_abbrev_at(b: Seq<u8>, i: int) -> (Tag, bool, Seq<AttributeEncoding>) {
    match uleb_at(b, i) {
        Some((code, n1)) => match uleb_at(b, n1) {
            Some((tagv, n2)) => match spec_attr_pairs(b, n2 + 1) {
                Some((pairs, _)) => (
                    spec_tag(tagv as u64).unwrap(),
                    b[n2] != 0,
                    pairs_to_encodings(pairs),
                ),
                None => (Tag::DW_TAG_user, false, Seq::empty()),
            },
            None => (Tag::DW_TAG_user, false, Seq::empty()),
        },
        None => (Tag::DW_TAG_user, false, Seq::empty()),
    }
}

/// Where the abbreviation at `i` ends; meaningful under the same
/// conditions as `spec_abbrev_at`.
pub open spec fn spec_abbrev_end(b: Seq<u8>, i: int) -> int {
    match uleb_at(b, i) {
        Some((code, n1)) => match uleb_at(b, n1) {
            Some((tagv, n2)) => match spec_attr_pairs(b, n2 + 1) {
                Some((pairs, e)) => e,
                None => i + 1,
            },
            None => i + 1,
        },
        None => i + 1,
    }
}

/// The abbreviation table starting at `i`: entries in order until the
/// terminating zero code, stopping early at the first malformed entry.
pub open spec fn spec_abbrev_table(b: Seq<u8>, i: int) -> Seq<(Tag, bool, Seq<AttributeEncoding>)>
    decreases b.len() - i,
    via spec_abbrev_table_decreases
{
    if !spec_abbrev_ok(b, i) {
        Seq::empty()
    } else {
        match uleb_at(b, i) {
            Some((code, _)) => {
                if code == 0 {
                    Seq::empty()
                } else {
                    seq![spec_abbrev_at(b, i)] + spec_abbrev_table(b, spec_abbrev_end(b, i))
                }
            },
            None => Seq::empty(),
        }
    }
}

#[via_fn]
proof fn spec_abbrev_table_decreases(b: Seq<u8>, i: int) {
    if spec_abbrev_ok(b, i) {
        lemma_uleb_at_bounds(b, i);
        match uleb_at(b, i) {
            Some((code, n1)) => {
                if code != 0 {
                    lemma_uleb_at_bounds(b, n1);
                    match uleb_at(b, n1) {
                        Some((tagv, n2)) => {
                            lemma_attr_pairs_bounds(b, n2 + 1);
                        },
                        None => {},
                    }
                }
            },
            None => {},
        }
    }
}

} // verus!
