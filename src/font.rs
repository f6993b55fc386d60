//! A parsed font and on-demand access to its glyphs.
use vstd::prelude::*;
use vstd::slice::slice_subrange;
use crate::cmap::{cmap_lookup, cmap_spec};
use crate::cursor::{be_i16, be_u16, read_i16, read_u16};
use crate::directory::{
    directory_error, directory_records, find_spec, find_table, parse_directory, TableRecord,
};
use crate::error::FormatError;
use crate::glyph::{decode_glyph, glyph_spec, Component, GlyphData, GlyphDescription, GlyphModel};
use crate::tables::{
    cmap_subtable_spec, loca_entry, loca_error, metric_spec, read_cmap_subtable, read_loca,
    read_metrics, records_read, HMetric,
};

verus! {

pub const TAG_HEAD: u32 = 0x68656164;
pub const TAG_MAXP: u32 = 0x6d617870;
pub const TAG_HHEA: u32 = 0x68686561;
pub const TAG_HMTX: u32 = 0x686d7478;
pub const TAG_LOCA: u32 = 0x6c6f6361;
pub const TAG_GLYF: u32 = 0x676c7966;
pub const TAG_CMAP: u32 = 0x636d6170;

/// How deeply compound glyphs may nest.
pub const MAX_COMPONENT_DEPTH: usize = 8;

/// What a font holds once loaded.
pub struct FontModel {
    pub units_per_em: u16,
    pub num_glyphs: u16,
    pub long_loca: bool,
    /// Byte offset into `glyf` of each glyph, and of the end of the last.
    pub loca: Seq<u32>,
    pub glyf: Seq<u8>,
    /// Horizontal metrics, one per glyph.
    pub metrics: Seq<HMetric>,
    /// The format 4 character map subtable, or nothing.
    pub cmap: Seq<u8>,
}

/// A loaded font. It is not changed after loading.
pub struct Font {
    units_per_em: u16,
    num_glyphs: u16,
    long_loca: bool,
    loca: Vec<u32>,
    glyf: Vec<u8>,
    metrics: Vec<HMetric>,
    cmap: Vec<u8>,
}

/// A glyph decoded from a font.
#[derive(Debug, Clone)]
pub struct Glyph {
    pub id: u16,
    pub description: GlyphDescription,
    pub data: GlyphData,
    pub advance_width: u16,
    pub left_side_bearing: i16,
}

impl Glyph {
    pub fn is_simple(&self) -> (r: bool)
        ensures
            r == (self.data@ is Simple),
    {
        self.data.is_simple()
    }

    pub fn description(&self) -> (r: GlyphDescription)
        ensures
            r == self.description,
    {
        self.description
    }
}

/// Whether a model is a usable font: at least one glyph, glyph offsets in
/// order and inside glyf, and metrics for each glyph.
pub open spec fn font_wf(m: FontModel) -> bool {
    &&& m.num_glyphs >= 1
    &&& m.loca.len() == m.num_glyphs + 1
    &&& m.metrics.len() == m.num_glyphs
    &&& forall|g: int| 0 <= g < m.num_glyphs ==> #[trigger] m.loca[g] <= m.loca[g + 1]
    &&& forall|g: int| 0 <= g <= m.num_glyphs ==> #[trigger] m.loca[g] <= m.glyf.len()
}

/// The bytes of glyph `g`.
pub open spec fn glyph_bytes(m: FontModel, g: int) -> Seq<u8> {
    m.glyf.subrange(m.loca[g] as int, m.loca[g + 1] as int)
}

/// Whether a component of `cs` refers to a glyph id past the glyph count.
pub open spec fn refers_past_count(m: FontModel, cs: Seq<Component>) -> bool {
    exists|i: int| 0 <= i < cs.len() && #[trigger] cs[i].glyph_index >= m.num_glyphs
}

/// The failure met when resolving components `cs` of glyph `owner`, nested
/// `depth` levels deep. A reference past the glyph count, by any component,
/// comes first; then, component by component, a reference to the owner
/// itself, a component that does not decode, or nesting too deep.
pub open spec fn components_error(m: FontModel, owner: int, cs: Seq<Component>, depth: int) -> Option<
    FormatError,
>
    decreases MAX_COMPONENT_DEPTH - depth, cs.len(),
{
    if cs.len() == 0 || depth < 0 || depth > MAX_COMPONENT_DEPTH {
        None
    } else {
        let g = cs[0].glyph_index as int;
        let first = if refers_past_count(m, cs) {
            Some(FormatError::InvalidGlyphIndex)
        } else if g == owner {
            Some(FormatError::CompoundCycle)
        } else {
            match glyph_spec(glyph_bytes(m, g)) {
                Err(e) => Some(e),
                Ok((_, GlyphModel::Compound(sub))) => if depth + 1 > MAX_COMPONENT_DEPTH {
                    Some(FormatError::CompoundCycle)
                } else {
                    components_error(m, g, sub, depth + 1)
                },
                Ok(_) => None,
            }
        };
        if first is Some {
            first
        } else {
            components_error(m, owner, cs.drop_first(), depth)
        }
    }
}

/// What asking the font for glyph `g` gives: its box and outline, or why it
/// cannot be had.
pub open spec fn glyph_result(m: FontModel, g: int) -> Result<(GlyphDescription, GlyphModel), FormatError> {
    if g < 0 || g >= m.num_glyphs {
        Err(FormatError::InvalidGlyphIndex)
    } else {
        match glyph_spec(glyph_bytes(m, g)) {
            Err(e) => Err(e),
            Ok((d, GlyphModel::Compound(cs))) => match components_error(m, g, cs, 0) {
                Some(e) => Err(e),
                None => Ok((d, GlyphModel::Compound(cs))),
            },
            Ok(r) => Ok(r),
        }
    }
}

/// The glyph id the font gives character `c`: glyph zero where its map gives
/// none, or one past the glyph count.
pub open spec fn glyph_id_spec(m: FontModel, c: char) -> int {
    let g = cmap_spec(m.cmap, c as int);
    if g < m.num_glyphs { g } else { 0 }
}

impl View for Font {
    type V = FontModel;

    closed spec fn view(&self) -> FontModel {
        FontModel {
            units_per_em: self.units_per_em,
            num_glyphs: self.num_glyphs,
            long_loca: self.long_loca,
            loca: self.loca@,
            glyf: self.glyf@,
            metrics: self.metrics@,
            cmap: self.cmap@,
        }
    }
}

impl Font {
    #[verifier::type_invariant]
    closed spec fn inv(&self) -> bool {
        font_wf(self@)
    }

    pub fn units_per_em(&self) -> (r: u16)
        ensures
            r == self@.units_per_em,
    {
        self.units_per_em
    }

    pub fn glyph_count(&self) -> (r: u16)
        ensures
            r == self@.num_glyphs,
            r >= 1,
    {
        proof {
            use_type_invariant(self);
        }
        self.num_glyphs
    }

    pub fn is_long_loca(&self) -> (r: bool)
        ensures
            r == self@.long_loca,
    {
        self.long_loca
    }

    /// The metrics of glyph `id`.
    pub fn metric(&self, id: u16) -> (r: HMetric)
        requires
            id < self@.num_glyphs,
        ensures
            r == self@.metrics[id as int],
    {
        proof {
            use_type_invariant(self);
        }
        self.metrics[id as usize]
    }

    /// The bytes of glyph `id` inside glyf.
    fn glyph_slice(&self, id: u16) -> (r: &[u8])
        requires
            id < self@.num_glyphs,
        ensures
            r@ == glyph_bytes(self@, id as int),
    {
        proof {
            use_type_invariant(self);
            assert(self.loca@[id as int] <= self.loca@[id as int + 1]);
        }
        let start = self.loca[id as usize] as usize;
        let end = self.loca[id as usize + 1] as usize;
        slice_subrange(self.glyf.as_slice(), start, end)
    }

    /// The first failure among components `cs` of glyph `owner`, resolved
    /// `depth` levels deep.
    fn check_components(&self, owner: u16, cs: &Vec<Component>, depth: usize) -> (r: Option<FormatError>)
        requires
            depth <= MAX_COMPONENT_DEPTH,
        ensures
            r == components_error(self@, owner as int, cs@, depth as int),
        decreases MAX_COMPONENT_DEPTH - depth, cs@.len(),
    {
        let mut k: usize = 0;
        while k < cs.len()
            invariant
                k <= cs@.len(),
                depth <= MAX_COMPONENT_DEPTH,
                forall|j: int| 0 <= j < k ==> #[trigger] cs@[j].glyph_index < self@.num_glyphs,
            decreases cs@.len() - k,
        {
            if cs[k].glyph_index >= self.num_glyphs {
                proof {
                    assert(cs@[k as int].glyph_index >= self@.num_glyphs);
                }
                return Some(FormatError::InvalidGlyphIndex);
            }
            k = k + 1;
        }
        let mut i: usize = 0;
        assert(cs@.subrange(0, cs@.len() as int) =~= cs@);
        while i < cs.len()
            invariant
                i <= cs@.len(),
                depth <= MAX_COMPONENT_DEPTH,
                forall|j: int| 0 <= j < cs@.len() ==> #[trigger] cs@[j].glyph_index < self@.num_glyphs,
                components_error(self@, owner as int, cs@, depth as int) == components_error(
                    self@,
                    owner as int,
                    cs@.subrange(i as int, cs@.len() as int),
                    depth as int,
                ),
            decreases cs@.len() - i,
        {
            let ghost rest = cs@.subrange(i as int, cs@.len() as int);
            assert(rest.drop_first() =~= cs@.subrange(i + 1, cs@.len() as int));
            assert(rest[0] == cs@[i as int]);
            let g = cs[i].glyph_index;
            proof {
                assert(!refers_past_count(self@, rest)) by {
                    if refers_past_count(self@, rest) {
                        let t = choose|t: int| 0 <= t < rest.len() && #[trigger] rest[t].glyph_index >= self@.num_glyphs;
                        assert(rest[t] == cs@[i + t]);
                    }
                }
            }
            if g == owner {
                return Some(FormatError::CompoundCycle);
            }
            match decode_glyph(self.glyph_slice(g)) {
                Err(e) => {
                    return Some(e);
                },
                Ok((_, GlyphData::Compound(sub))) => {
                    if depth + 1 > MAX_COMPONENT_DEPTH {
                        return Some(FormatError::CompoundCycle);
                    }
                    let inner = self.check_components(g, &sub.components, depth + 1);
                    if inner.is_some() {
                        return inner;
                    }
                },
                Ok(_) => {},
            }
            i = i + 1;
        }
        proof {
            assert(cs@.subrange(cs@.len() as int, cs@.len() as int).len() == 0);
        }
        None
    }

    /// Decodes glyph `id`, resolving what its components refer to.
    pub fn glyph(&self, id: u16) -> (r: Result<Glyph, FormatError>)
        ensures
            match r {
                Ok(gl) => glyph_result(self@, id as int) == Ok::<
                    (GlyphDescription, GlyphModel),
                    FormatError,
                >((gl.description, gl.data@)) && gl.id == id && gl.advance_width
                    == self@.metrics[id as int].advance_width && gl.left_side_bearing
                    == self@.metrics[id as int].left_side_bearing,
                Err(e) => glyph_result(self@, id as int) == Err::<
                    (GlyphDescription, GlyphModel),
                    FormatError,
                >(e),
            },
    {
        proof {
            use_type_invariant(self);
        }
        if id >= self.num_glyphs {
            return Err(FormatError::InvalidGlyphIndex);
        }
        let (description, data) = match decode_glyph(self.glyph_slice(id)) {
            Ok(v) => v,
            Err(e) => return Err(e),
        };
        if let GlyphData::Compound(c) = &data {
            if let Some(e) = self.check_components(id, &c.components, 0) {
                return Err(e);
            }
        }
        let m = self.metrics[id as usize];
        Ok(
            Glyph {
                id,
                description,
                data,
                advance_width: m.advance_width,
                left_side_bearing: m.left_side_bearing,
            },
        )
    }

    /// The glyph id for character `c`.
    pub fn glyph_id(&self, c: char) -> (r: u16)
        ensures
            r == glyph_id_spec(self@, c),
            r < self@.num_glyphs,
    {
        proof {
            use_type_invariant(self);
        }
        let g = cmap_lookup(self.cmap.as_slice(), c as u32);
        if g < self.num_glyphs {
            g
        } else {
            0
        }
    }
}

/// The first required table, in the order head, maxp, hhea, hmtx, loca,
/// glyf, cmap, that the directory lacks.
pub open spec fn missing_tag(recs: Seq<TableRecord>) -> Option<u32> {
    if find_spec(recs, TAG_HEAD) is None {
        Some(TAG_HEAD)
    } else if find_spec(recs, TAG_MAXP) is None {
        Some(TAG_MAXP)
    } else if find_spec(recs, TAG_HHEA) is None {
        Some(TAG_HHEA)
    } else if find_spec(recs, TAG_HMTX) is None {
        Some(TAG_HMTX)
    } else if find_spec(recs, TAG_LOCA) is None {
        Some(TAG_LOCA)
    } else if find_spec(recs, TAG_GLYF) is None {
        Some(TAG_GLYF)
    } else if find_spec(recs, TAG_CMAP) is None {
        Some(TAG_CMAP)
    } else {
        None
    }
}

/// The bytes of the first table of `tag`.
pub open spec fn table_of(b: Seq<u8>, recs: Seq<TableRecord>, tag: u32) -> Seq<u8> {
    let t = find_spec(recs, tag).unwrap();
    b.subrange(t.offset as int, t.offset + t.length)
}

/// The font a buffer holds, or why it holds none.
pub open spec fn parse_spec(b: Seq<u8>) -> Result<FontModel, FormatError> {
    let recs = directory_records(b);
    let head = table_of(b, recs, TAG_HEAD);
    let maxp = table_of(b, recs, TAG_MAXP);
    let hhea = table_of(b, recs, TAG_HHEA);
    let hmtx = table_of(b, recs, TAG_HMTX);
    let loca = table_of(b, recs, TAG_LOCA);
    let glyf = table_of(b, recs, TAG_GLYF);
    let cmap = table_of(b, recs, TAG_CMAP);
    let ilf = be_i16(head, 50);
    let long = ilf == 1;
    let n = be_u16(maxp, 4);
    let nhm = be_u16(hhea, 34);
    if directory_error(b) is Some {
        Err(directory_error(b).unwrap())
    } else if missing_tag(recs) is Some {
        Err(FormatError::MissingTable(missing_tag(recs).unwrap()))
    } else if head.len() < 54 {
        Err(FormatError::TruncatedBuffer)
    } else if ilf != 0 && ilf != 1 {
        Err(FormatError::MalformedTable)
    } else if maxp.len() < 6 {
        Err(FormatError::TruncatedBuffer)
    } else if n == 0 {
        Err(FormatError::MalformedTable)
    } else if hhea.len() < 36 {
        Err(FormatError::TruncatedBuffer)
    } else if nhm == 0 {
        Err(FormatError::MalformedTable)
    } else if hmtx.len() < 4 * records_read(n, nhm) {
        Err(FormatError::TruncatedBuffer)
    } else if loca_error(loca, n, long, glyf.len() as int) is Some {
        Err(loca_error(loca, n, long, glyf.len() as int).unwrap())
    } else {
        match cmap_subtable_spec(cmap) {
            Err(e) => Err(e),
            Ok(sub) => {
                let m = FontModel {
                    units_per_em: be_u16(head, 18) as u16,
                    num_glyphs: n as u16,
                    long_loca: long,
                    loca: Seq::new((n + 1) as nat, |g: int| loca_entry(loca, g, long) as u32),
                    glyf,
                    metrics: Seq::new(n as nat, |g: int| metric_spec(hmtx, nhm, g)),
                    cmap: sub,
                };
                match glyph_result(m, 0) {
                    Err(e) => Err(e),
                    Ok(_) => Ok(m),
                }
            },
        }
    }
}

/// The bytes of the first table of `tag`.
fn table<'a>(b: &'a [u8], recs: &Vec<TableRecord>, tag: u32) -> (r: Result<&'a [u8], FormatError>)
    requires
        directory_error(b@) is None,
        recs@ == directory_records(b@),
    ensures
        match r {
            Ok(t) => find_spec(recs@, tag) is Some && t@ == table_of(b@, recs@, tag),
            Err(e) => find_spec(recs@, tag) is None && e == FormatError::MissingTable(tag),
        },
{
    match find_table(recs, tag) {
        None => Err(FormatError::MissingTable(tag)),
        Some(t) => {
            // Brings in that the buffer's length fits a usize.
            let _len = b.len();
            proof {
                let i = choose|i: int| 0 <= i < recs@.len() && recs@[i] == t;
                assert(recs@[i] == crate::directory::record_spec(b@, i));
                assert(crate::directory::record_in_bounds(crate::directory::record_spec(b@, i), b@.len() as int));
                assert(t.offset + t.length <= b@.len());
            }
            Ok(slice_subrange(b, t.offset as usize, t.offset as usize + t.length as usize))
        },
    }
}

/// Loads a font from its bytes. A loaded font has at least one glyph, and
/// its glyph zero decodes.
pub fn parse(b: &[u8]) -> (r: Result<Font, FormatError>)
    ensures
        match r {
            Ok(f) => parse_spec(b@) == Ok::<FontModel, FormatError>(f@),
            Err(e) => parse_spec(b@) == Err::<FontModel, FormatError>(e),
        },
        r is Ok ==> r.unwrap()@.num_glyphs >= 1 && glyph_result(r.unwrap()@, 0) is Ok,
{
    let recs = match parse_directory(b) {
        Ok(v) => v,
        Err(e) => return Err(e),
    };
    let head = match table(b, &recs, TAG_HEAD) { Ok(t) => t, Err(e) => return Err(e) };
    let maxp = match table(b, &recs, TAG_MAXP) { Ok(t) => t, Err(e) => return Err(e) };
    let hhea = match table(b, &recs, TAG_HHEA) { Ok(t) => t, Err(e) => return Err(e) };
    let hmtx = match table(b, &recs, TAG_HMTX) { Ok(t) => t, Err(e) => return Err(e) };
    let loca = match table(b, &recs, TAG_LOCA) { Ok(t) => t, Err(e) => return Err(e) };
    let glyf = match table(b, &recs, TAG_GLYF) { Ok(t) => t, Err(e) => return Err(e) };
    let cmap = match table(b, &recs, TAG_CMAP) { Ok(t) => t, Err(e) => return Err(e) };
    if head.len() < 54 {
        return Err(FormatError::TruncatedBuffer);
    }
    let ilf = read_i16(head, 50).unwrap();
    if ilf != 0 && ilf != 1 {
        return Err(FormatError::MalformedTable);
    }
    let long = ilf == 1;
    let units_per_em = read_u16(head, 18).unwrap();
    if maxp.len() < 6 {
        return Err(FormatError::TruncatedBuffer);
    }
    let n = read_u16(maxp, 4).unwrap();
    if n == 0 {
        return Err(FormatError::MalformedTable);
    }
    if hhea.len() < 36 {
        return Err(FormatError::TruncatedBuffer);
    }
    let nhm = read_u16(hhea, 34).unwrap();
    if nhm == 0 {
        return Err(FormatError::MalformedTable);
    }
    let metrics = match read_metrics(hmtx, n, nhm) { Ok(v) => v, Err(e) => return Err(e) };
    let loca_v = match read_loca(loca, n, long, glyf.len()) { Ok(v) => v, Err(e) => return Err(e) };
    let sub = match read_cmap_subtable(cmap) { Ok(v) => v, Err(e) => return Err(e) };
    let font = Font {
        units_per_em,
        num_glyphs: n,
        long_loca: long,
        loca: loca_v,
        glyf: vstd::slice::slice_to_vec(glyf),
        metrics,
        cmap: sub,
    };
    proof {
        assert(font@.loca =~= Seq::new((n + 1) as nat, |g: int| loca_entry(loca@, g, long) as u32));
        assert(font@.metrics =~= Seq::new(n as nat, |g: int| metric_spec(hmtx@, nhm as int, g)));
    }
    match font.glyph(0) {
        Err(e) => Err(e),
        Ok(_) => Ok(font),
    }
}

/// A compound glyph with any component that refers to a glyph id past the
/// glyph count fails with `InvalidGlyphIndex`.
pub proof fn lemma_missing_component(m: FontModel, g: int, j: int)
    requires
        0 <= g < m.num_glyphs,
        glyph_spec(glyph_bytes(m, g)) is Ok,
        glyph_spec(glyph_bytes(m, g)).unwrap().1 matches GlyphModel::Compound(cs)
            && 0 <= j < cs.len() && cs[j].glyph_index >= m.num_glyphs,
    ensures
        glyph_result(m, g) == Err::<(GlyphDescription, GlyphModel), FormatError>(
            FormatError::InvalidGlyphIndex,
        ),
{
    let cs = glyph_spec(glyph_bytes(m, g)).unwrap().1->Compound_0;
    assert(refers_past_count(m, cs));
}

/// A compound glyph whose first component refers to the glyph itself fails
/// with `CompoundCycle`, without resolving it, when no component refers past
/// the glyph count.
pub proof fn lemma_self_reference(m: FontModel, g: int)
    requires
        0 <= g < m.num_glyphs,
        glyph_spec(glyph_bytes(m, g)) is Ok,
        glyph_spec(glyph_bytes(m, g)).unwrap().1 matches GlyphModel::Compound(cs)
            && cs.len() > 0 && cs[0].glyph_index == g && !refers_past_count(m, cs),
    ensures
        glyph_result(m, g) == Err::<(GlyphDescription, GlyphModel), FormatError>(
            FormatError::CompoundCycle,
        ),
{
}

} // verus!
