use vstd::prelude::*;
use std::sync::Arc;
use vstd::arithmetic::div_mod::lemma_fundamental_div_mod;

use crate::gpu::{buffer_usages_eq, ExBuffer, ExBufferUsages};
use crate::transient_resource::{
    opt_label_eq, AnyTransientResource, AnyTransientResourceDescriptor, ArcAnyTransientResource,
    IntoArcAnyTransientResource, TransientResource, TransientResourceDescriptor,
};

verus! {

#[verifier::external_type_specification]
#[verifier::external_body]
pub struct ExBufferInitDescriptor<'a>(wgpu::util::BufferInitDescriptor<'a>);

/// Relies on the fields of wgpu::util::BufferInitDescriptor: the label text,
/// the length of the initial contents (a slice holds at most isize::MAX
/// bytes), and the usage flags.
#[verifier::external_body]
fn init_desc_parts(desc: &wgpu::util::BufferInitDescriptor) -> (r: (
    Option<String>,
    usize,
    wgpu::BufferUsages,
))
    ensures
        r.1 as int <= 0x7fff_ffff_ffff_ffff,
{
    (desc.label.map(|l| l.to_string()), desc.contents.len(), desc.usage)
}

/// Buffer sizes handed to the GPU are rounded up to a multiple of this
/// alignment, mirroring the copy-buffer alignment that the GPU API documents.
pub const COPY_BUFFER_ALIGNMENT: u64 = 4;

/// A GPU buffer together with the descriptor it was created from. The
/// descriptor is the pooling key: two buffers are interchangeable exactly when
/// their descriptors match.
pub struct TransientBuffer {
    pub resource: wgpu::Buffer,
    pub desc: TransientBufferDescriptor,
}

impl TransientResource for TransientBuffer {
    type Descriptor = TransientBufferDescriptor;

    open spec fn fits(res: &AnyTransientResource) -> bool {
        res is OwnedBuffer || res is ImportedBuffer
    }

    open spec fn of_any(res: AnyTransientResource) -> Self {
        match res {
            AnyTransientResource::OwnedBuffer(b) => b,
            AnyTransientResource::ImportedBuffer(b) => *b,
            _ => arbitrary(),
        }
    }

    open spec fn spec_desc(&self) -> TransientBufferDescriptor {
        self.desc
    }

    fn borrow_resource(res: &AnyTransientResource) -> (r: &Self) {
        match res {
            AnyTransientResource::OwnedBuffer(b) => b,
            AnyTransientResource::ImportedBuffer(b) => &*b,
            _ => unreached(),
        }
    }

    fn get_desc(&self) -> (r: &TransientBufferDescriptor) {
        &self.desc
    }
}

impl IntoArcAnyTransientResource for TransientBuffer {
    open spec fn spec_wrap_arc(res: Arc<Self>) -> ArcAnyTransientResource {
        ArcAnyTransientResource::Buffer(res)
    }

    fn wrap_arc(res: Arc<Self>) -> (r: ArcAnyTransientResource) {
        proof {
            let d = res.desc;
            TransientBufferDescriptor::lemma_matches_equivalence(d, d, d);
        }
        ArcAnyTransientResource::Buffer(res)
    }
}

/// The creation parameters of a transient buffer, used both to ask the GPU for
/// a new buffer and as the structural key under which free buffers are pooled.
/// The label takes part in the comparison on purpose, so that pooled buffers
/// keep stable debug names.
pub struct TransientBufferDescriptor {
    pub label: Option<String>,
    pub size: u64,
    pub usage: wgpu::BufferUsages,
    pub mapped_at_creation: bool,
}

/// Structural equality of two buffer descriptors: same label text, same size,
/// same usage flags, same mapping request.
pub open spec fn buffer_desc_matches(
    a: TransientBufferDescriptor,
    b: TransientBufferDescriptor,
) -> bool {
    &&& opt_label_eq(a.label, b.label)
    &&& a.size == b.size
    &&& a.usage == b.usage
    &&& a.mapped_at_creation == b.mapped_at_creation
}

impl TransientBufferDescriptor {
    /// Rounds a nonzero buffer size up to the alignment: the result is the
    /// smallest multiple of COPY_BUFFER_ALIGNMENT that is at least as large
    /// as both the size and the alignment itself.
    pub fn padded_size(unpadded_size: u64) -> (r: u64)
        requires
            unpadded_size <= u64::MAX - 3,
        ensures
            r % COPY_BUFFER_ALIGNMENT == 0,
            r >= unpadded_size,
            r >= COPY_BUFFER_ALIGNMENT,
            forall|m: int|
                #[trigger] (m % (COPY_BUFFER_ALIGNMENT as int)) == 0 && m >= unpadded_size && m
                    >= COPY_BUFFER_ALIGNMENT ==> m >= r,
    {
        let s = unpadded_size;
        let rem = s % COPY_BUFFER_ALIGNMENT;
        proof {
            lemma_fundamental_div_mod(s as int, 4);
        }
        let padded = if rem == 0 {
            s
        } else {
            s - rem + COPY_BUFFER_ALIGNMENT
        };
        proof {
            assert(padded % 4 == 0) by {
                if rem != 0 {
                    assert(padded as int == 4 * ((s as int) / 4) + 4);
                    assert(padded as int == 4 * ((s as int) / 4 + 1));
                    assert((4 * ((s as int) / 4 + 1)) % 4 == 0) by (nonlinear_arith);
                } else {
                    assert(s as int == 4 * ((s as int) / 4));
                    assert((4 * ((s as int) / 4)) % 4 == 0) by (nonlinear_arith);
                }
            }
            assert(padded >= s);
            assert(padded <= s + 3);
        }
        let r = if padded > COPY_BUFFER_ALIGNMENT {
            padded
        } else {
            COPY_BUFFER_ALIGNMENT
        };
        proof {
            assert forall|m: int|
                #[trigger] (m % (COPY_BUFFER_ALIGNMENT as int)) == 0 && m >= s && m >= 4 implies m
                >= r by {
                if m < r {
                    lemma_fundamental_div_mod(m, 4);
                    lemma_fundamental_div_mod(r as int, 4);
                    assert(m == 4 * (m / 4) + m % 4);
                    assert(r as int == 4 * ((r as int) / 4) + (r as int) % 4);
                    assert(m <= r - 4) by {
                        if m > r - 4 {
                            assert(r - 4 < m < r);
                            assert(4 * ((r as int) / 4) - 4 < 4 * (m / 4) < 4 * ((r as int) / 4));
                            assert((r as int) / 4 - 1 < m / 4 < (r as int) / 4) by (nonlinear_arith)
                                requires
                                    4 * ((r as int) / 4) - 4 < 4 * (m / 4) < 4 * ((r as int) / 4),
                            ;
                            assert(false);
                        }
                    }
                    if r == 4 {
                        assert(false);
                    } else {
                        assert(r == padded);
                        assert(r <= s + 3);
                        assert(m <= r - 4 < s);
                        assert(false);
                    }
                }
            }
        }
        r
    }

    /// Builds the descriptor behind a buffer initialised from data: an empty
    /// initialiser keeps size zero, any other size is padded up to the
    /// alignment, and the buffer is never mapped at creation.
    pub fn from_init_parts(
        label: Option<String>,
        contents_len: usize,
        usage: wgpu::BufferUsages,
    ) -> (r: Self)
        requires
            contents_len as int <= u64::MAX - 3,
        ensures
            opt_label_eq(r.label, label),
            r.usage == usage,
            r.mapped_at_creation == false,
            contents_len == 0 ==> r.size == 0,
            contents_len > 0 ==> {
                &&& r.size % COPY_BUFFER_ALIGNMENT == 0
                &&& r.size >= contents_len
                &&& r.size >= COPY_BUFFER_ALIGNMENT
                &&& forall|m: int|
                    #[trigger] (m % (COPY_BUFFER_ALIGNMENT as int)) == 0 && m >= contents_len && m
                        >= COPY_BUFFER_ALIGNMENT ==> m >= r.size
            },
    {
        if contents_len == 0 {
            TransientBufferDescriptor { label, size: 0, usage, mapped_at_creation: false }
        } else {
            let size = Self::padded_size(contents_len as u64);
            TransientBufferDescriptor { label, size, usage, mapped_at_creation: false }
        }
    }

    /// Builds the descriptor for a buffer-with-data description of the GPU
    /// API, by the same padding rule.
    pub fn from_init_desc(desc: &wgpu::util::BufferInitDescriptor) -> (r: Self)
        ensures
            r.mapped_at_creation == false,
            r.size == 0 || (r.size % COPY_BUFFER_ALIGNMENT == 0 && r.size
                >= COPY_BUFFER_ALIGNMENT),
    {
        let (label, contents_len, usage) = init_desc_parts(desc);
        Self::from_init_parts(label, contents_len, usage)
    }
}

impl TransientResourceDescriptor for TransientBufferDescriptor {
    open spec fn fits_any(res: &AnyTransientResourceDescriptor) -> bool {
        res is Buffer
    }

    open spec fn of_any(res: AnyTransientResourceDescriptor) -> Self {
        match res {
            AnyTransientResourceDescriptor::Buffer(d) => d,
            _ => arbitrary(),
        }
    }

    open spec fn to_any(self) -> AnyTransientResourceDescriptor {
        AnyTransientResourceDescriptor::Buffer(self)
    }

    fn borrow_resource_descriptor(res: &AnyTransientResourceDescriptor) -> (r: &Self) {
        match res {
            AnyTransientResourceDescriptor::Buffer(d) => d,
            _ => unreached(),
        }
    }

    fn into_any(self) -> (r: AnyTransientResourceDescriptor) {
        AnyTransientResourceDescriptor::Buffer(self)
    }

    open spec fn matches(self, other: Self) -> bool {
        buffer_desc_matches(self, other)
    }

    fn same_desc(&self, other: &Self) -> (r: bool) {
        let label_eq = match (&self.label, &other.label) {
            (None, None) => true,
            (Some(a), Some(b)) => *a == *b,
            _ => false,
        };
        label_eq && self.size == other.size && buffer_usages_eq(&self.usage, &other.usage)
            && self.mapped_at_creation == other.mapped_at_creation
    }

    proof fn lemma_matches_equivalence(a: Self, b: Self, c: Self) {
    }

    fn duplicate(&self) -> (r: Self) {
        let label = match &self.label {
            Some(s) => Some(s.clone()),
            None => None,
        };
        TransientBufferDescriptor {
            label,
            size: self.size,
            usage: self.usage,
            mapped_at_creation: self.mapped_at_creation,
        }
    }

    proof fn lemma_roundtrip(d: Self) {
    }

    proof fn lemma_matches_any(
        a: AnyTransientResourceDescriptor,
        b: AnyTransientResourceDescriptor,
    ) {
    }
}

} // verus!
