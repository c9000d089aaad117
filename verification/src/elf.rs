//! The program-image builder: parses a position-independent executable
//! image, determines the highest address its loadable segments touch,
//! copies each loadable segment into a zero-filled buffer of whole pages,
//! and applies the image's 64-bit relative relocations. Exactly one
//! relocation kind is supported; any other is rejected outright.

use vstd::prelude::*;

use crate::bytes::{le16, le32, le64, le64_bytes, le_byte, read_u16_le, read_u32_le, read_u64_le,
    write_u64_le, lemma_le64_bytes_value};
use crate::frame::PAGE_SIZE;

verus! {

/// Program-header type of a loadable segment.
pub const PT_LOAD: u32 = 1;

/// Program-header type of the dynamic section.
pub const PT_DYNAMIC: u32 = 2;

/// Dynamic tag: address of the relocation table.
pub const DT_RELA: u64 = 7;

/// Dynamic tag: total size in bytes of the relocation table.
pub const DT_RELASZ: u64 = 8;

/// Dynamic tag: size in bytes of one relocation entry.
pub const DT_RELAENT: u64 = 9;

/// The one relocation kind this loader supports: base plus addend.
pub const R_RELATIVE: u64 = 8;

/// Why an image was rejected.
#[derive(Clone, Copy, PartialEq, Eq, Structural, Debug)]
pub enum LoadError {
    /// Too short, wrong magic, or a malformed program-header table.
    BadImage,
    /// No loadable segment at all.
    NoLoadableSegments,
    /// The loadable segments reach beyond what this machine can hold.
    ImageTooLarge,
    /// A segment or relocation reaches outside the file or the image.
    SegmentOutOfRange,
    /// A relocation of any kind other than the one supported.
    UnsupportedRelocation(u32),
}

/// The built image: its bytes (whole zero-padded pages), the entry point as
/// an offset into the image, and the page count.
#[derive(Clone, PartialEq, Eq, Debug)]
pub struct LoadedImage {
    pub bytes: Vec<u8>,
    pub entry_offset: u64,
    pub pages: u64,
}

/// Entry-point offset recorded in the image header.
pub open spec fn spec_entry(d: Seq<u8>) -> int {
    le64(d, 24)
}

/// File offset of the program-header table.
pub open spec fn spec_phoff(d: Seq<u8>) -> int {
    le64(d, 32)
}

/// Size in bytes of one program header.
pub open spec fn spec_phentsize(d: Seq<u8>) -> int {
    le16(d, 54)
}

/// Number of program headers.
pub open spec fn spec_phnum(d: Seq<u8>) -> int {
    le16(d, 56)
}

/// File offset of program header `i`.
pub open spec fn spec_ph(d: Seq<u8>, i: int) -> int {
    spec_phoff(d) + i * spec_phentsize(d)
}

/// Type of program header `i`.
pub open spec fn spec_ph_type(d: Seq<u8>, i: int) -> int {
    le32(d, spec_ph(d, i))
}

/// File offset of segment `i`'s bytes.
pub open spec fn spec_ph_offset(d: Seq<u8>, i: int) -> int {
    le64(d, spec_ph(d, i) + 8)
}

/// Virtual address segment `i` is to occupy, relative to the image base.
pub open spec fn spec_ph_vaddr(d: Seq<u8>, i: int) -> int {
    le64(d, spec_ph(d, i) + 16)
}

/// Number of segment `i`'s bytes present in the file.
pub open spec fn spec_ph_filesz(d: Seq<u8>, i: int) -> int {
    le64(d, spec_ph(d, i) + 32)
}

/// Number of bytes segment `i` occupies in memory.
pub open spec fn spec_ph_memsz(d: Seq<u8>, i: int) -> int {
    le64(d, spec_ph(d, i) + 40)
}

/// The file is long enough, carries the magic, and its program-header table
/// lies inside it with headers of at least the standard size.
pub open spec fn spec_header_ok(d: Seq<u8>) -> bool {
    &&& d.len() >= 64
    &&& d[0] == 0x7f
    &&& d[1] == 0x45
    &&& d[2] == 0x4c
    &&& d[3] == 0x46
    &&& spec_phentsize(d) >= 56
    &&& spec_phoff(d) + spec_phnum(d) * spec_phentsize(d) <= d.len()
}

/// Whether one of the first `n` program headers is loadable.
pub open spec fn spec_has_load(d: Seq<u8>, n: int) -> bool
    decreases n,
{
    n > 0 && (spec_ph_type(d, n - 1) == PT_LOAD || spec_has_load(d, n - 1))
}

/// The highest byte past any of the first `n` loadable segments.
pub open spec fn spec_image_size(d: Seq<u8>, n: int) -> int
    decreases n,
{
    if n <= 0 {
        0
    } else {
        let prev = spec_image_size(d, n - 1);
        let end = if spec_ph_type(d, n - 1) == PT_LOAD {
            spec_ph_vaddr(d, n - 1) + spec_ph_memsz(d, n - 1)
        } else {
            0
        };
        if end > prev {
            end
        } else {
            prev
        }
    }
}

/// The image size rounded up to whole pages.
pub open spec fn spec_image_pages(d: Seq<u8>) -> int {
    let size = spec_image_size(d, spec_phnum(d));
    size / (PAGE_SIZE as int) + if size % (PAGE_SIZE as int) != 0 {
        1int
    } else {
        0int
    }
}

/// `s` with `patch` written over it starting at `at`.
#[verifier::opaque]
pub open spec fn overwrite(s: Seq<u8>, at: int, patch: Seq<u8>) -> Seq<u8> {
    Seq::new(s.len(), |i: int| if at <= i < at + patch.len() {
        patch[i - at]
    } else {
        s[i]
    })
}

/// The value of the first dynamic entry with the given tag among entries
/// `j..count` of a dynamic section at file offset `off`, searched front to
/// back.
pub open spec fn spec_dyn_find(d: Seq<u8>, off: int, count: int, j: int, tag: int) -> Option<int>
    decreases count - j,
{
    if j >= count {
        None
    } else if le64(d, off + 16 * j) == tag {
        Some(le64(d, off + 16 * j + 8))
    } else {
        spec_dyn_find(d, off, count, j + 1, tag)
    }
}

/// The image after the first `m` relocation entries of the table at file
/// offset `ro` are applied: each writes base plus addend, reduced to 64
/// bits, over the 8 bytes at its target offset.
#[verifier::opaque]
pub open spec fn spec_apply_relas(d: Seq<u8>, buf: Seq<u8>, base: u64, ro: int, m: int) -> Seq<u8>
    decreases m,
{
    if m <= 0 {
        buf
    } else {
        let prev = spec_apply_relas(d, buf, base, ro, m - 1);
        let e = ro + 24 * (m - 1);
        let val = (((base as int) + le64(d, e + 16)) % 0x1_0000_0000_0000_0000) as u64;
        overwrite(prev, le64(d, e), le64_bytes(val))
    }
}

/// The image after the relocations named by dynamic segment `i` are
/// applied; a dynamic segment that names no complete relocation table
/// changes nothing.
pub open spec fn spec_apply_dynamic(d: Seq<u8>, buf: Seq<u8>, base: u64, i: int) -> Seq<u8> {
    let off = spec_ph_offset(d, i);
    let count = spec_ph_filesz(d, i) / 16;
    match (
        spec_dyn_find(d, off, count, 0, DT_RELA as int),
        spec_dyn_find(d, off, count, 0, DT_RELASZ as int),
        spec_dyn_find(d, off, count, 0, DT_RELAENT as int),
    ) {
        (Some(ro), Some(sz), Some(en)) => if en > 0 {
            spec_apply_relas(d, buf, base, ro, sz / en)
        } else {
            buf
        },
        _ => buf,
    }
}

/// The image after the first `n` program headers are processed over `buf`:
/// loadable segments copied to their addresses, dynamic segments' relocations
/// applied, all in file order.
pub open spec fn spec_apply_phdrs(d: Seq<u8>, buf: Seq<u8>, base: u64, n: int) -> Seq<u8>
    decreases n,
{
    if n <= 0 {
        buf
    } else {
        let prev = spec_apply_phdrs(d, buf, base, n - 1);
        let i = n - 1;
        if spec_ph_type(d, i) == PT_LOAD {
            overwrite(
                prev,
                spec_ph_vaddr(d, i),
                d.subrange(spec_ph_offset(d, i), spec_ph_offset(d, i) + spec_ph_filesz(d, i)),
            )
        } else if spec_ph_type(d, i) == PT_DYNAMIC {
            spec_apply_dynamic(d, prev, base, i)
        } else {
            prev
        }
    }
}

/// Loadable segment `i` lies inside the file and inside an image of
/// `buflen` bytes.
pub open spec fn spec_load_in_range(d: Seq<u8>, i: int, buflen: int) -> bool {
    &&& spec_ph_vaddr(d, i) + spec_ph_filesz(d, i) <= buflen
    &&& spec_ph_offset(d, i) + spec_ph_filesz(d, i) <= d.len()
}

/// Relocation entry `j` of the table at file offset `ro` is acceptable for
/// an image of `buflen` bytes: it lies inside the file, is of the one
/// supported kind, and writes inside the image.
#[verifier::opaque]
pub open spec fn spec_rela_ok(d: Seq<u8>, ro: int, j: int, buflen: int) -> bool {
    &&& ro + 24 * j + 24 <= d.len()
    &&& le64(d, ro + 24 * j + 8) % 0x1_0000_0000 == R_RELATIVE
    &&& le64(d, ro + 24 * j) + 8 <= buflen
}

/// Every one of the `m` relocation entries at `ro` is acceptable.
pub open spec fn spec_relas_all_ok(d: Seq<u8>, ro: int, m: int, buflen: int) -> bool {
    forall|j: int| 0 <= j < m ==> #[trigger] spec_rela_ok(d, ro, j, buflen)
}

/// The relocation table named by dynamic segment `i` is well-formed for an
/// image of `buflen` bytes.
pub open spec fn spec_dynamic_ok(d: Seq<u8>, i: int, buflen: int) -> bool {
    let off = spec_ph_offset(d, i);
    let count = spec_ph_filesz(d, i) / 16;
    &&& off + spec_ph_filesz(d, i) <= d.len()
    &&& (spec_dyn_find(d, off, count, 0, DT_RELA as int) matches Some(ro) ==> (spec_dyn_find(
        d,
        off,
        count,
        0,
        DT_RELASZ as int,
    ) matches Some(sz) ==> (spec_dyn_find(d, off, count, 0, DT_RELAENT as int) matches Some(en)
        ==> en > 0 && spec_relas_all_ok(d, ro, sz / en, buflen))))
}

/// An image this loader accepts in full.
pub open spec fn spec_loadable(d: Seq<u8>) -> bool {
    &&& spec_header_ok(d)
    &&& spec_has_load(d, spec_phnum(d))
    &&& spec_image_size(d, spec_phnum(d)) <= usize::MAX
    &&& spec_image_pages(d) * PAGE_SIZE <= usize::MAX
    &&& forall|i: int|
        0 <= i < spec_phnum(d) && (#[trigger] spec_ph_type(d, i)) == PT_LOAD
            ==> spec_load_in_range(d, i, spec_image_pages(d) * PAGE_SIZE)
    &&& forall|i: int|
        0 <= i < spec_phnum(d) && (#[trigger] spec_ph_type(d, i)) == PT_DYNAMIC
            ==> spec_dynamic_ok(d, i, spec_image_pages(d) * PAGE_SIZE)
}

/// A zero-filled buffer of `n` bytes: the fresh image before any segment is
/// copied in.
fn zero_vec(n: usize) -> (r: Vec<u8>)
    ensures
        r@ == Seq::new(n as nat, |i: int| 0u8),
{
    let mut v: Vec<u8> = Vec::new();
    let mut k: usize = 0;
    while k < n
        invariant
            k <= n,
            v.len() == k,
            forall|i: int| 0 <= i < k ==> v[i] == 0u8,
        decreases n - k,
    {
        v.push(0);
        k = k + 1;
    }
    proof {
        assert(v@ =~= Seq::new(n as nat, |i: int| 0u8));
    }
    v
}

/// Copies `len` bytes of `data` at `off` over `buf` at `at`: the image gains
/// one segment's file bytes.
fn copy_into(buf: &mut Vec<u8>, at: usize, data: &[u8], off: usize, len: usize)
    requires
        at + len <= old(buf).len(),
        off + len <= data@.len(),
    ensures
        final(buf).len() == old(buf).len(),
        final(buf)@ == overwrite(old(buf)@, at as int, data@.subrange(off as int, off + len)),
{
    let dlen: usize = data.len();
    let mut j: usize = 0;
    while j < len
        invariant
            j <= len,
            at + len <= buf.len(),
            off + len <= dlen,
            dlen == data@.len(),
            buf.len() == old(buf).len(),
            forall|i: int|
                0 <= i < buf.len() ==> buf[i] == (if at <= i < at + j {
                    data@[off + (i - at)]
                } else {
                    old(buf)[i]
                }),
        decreases len - j,
    {
        buf[at + j] = data[off + j];
        j = j + 1;
    }
    proof {
        reveal(overwrite);
        assert(buf@ =~= overwrite(old(buf)@, at as int, data@.subrange(off as int, off + len)));
    }
}

/// The value of the first dynamic entry carrying `tag`, among `count`
/// 16-byte entries at file offset `off`.
fn dyn_find(data: &[u8], off: u64, count: u64, tag: u64) -> (r: Option<u64>)
    requires
        off + count * 16 <= data@.len(),
    ensures
        r is None <==> spec_dyn_find(data@, off as int, count as int, 0, tag as int) is None,
        r matches Some(v) ==> spec_dyn_find(data@, off as int, count as int, 0, tag as int)
            == Some(v as int),
{
    let dlen: usize = data.len();
    let mut j: u64 = 0;
    while j < count
        invariant
            j <= count,
            dlen == data@.len(),
            off + count * 16 <= dlen,
            spec_dyn_find(data@, off as int, count as int, 0, tag as int) == spec_dyn_find(
                data@,
                off as int,
                count as int,
                j as int,
                tag as int,
            ),
        decreases count - j,
    {
        let e = (off + 16 * j) as usize;
        let t = read_u64_le(data, e);
        if t == tag {
            let v = read_u64_le(data, e + 8);
            return Some(v);
        }
        j = j + 1;
    }
    None
}

/// One relocation write extends the applied-relocations fold by one entry.
proof fn lemma_rela_write_step(
    d: Seq<u8>,
    buf0: Seq<u8>,
    prev: Seq<u8>,
    post: Seq<u8>,
    base: u64,
    ro: int,
    j: int,
    val: u64,
    target: int,
)
    requires
        j >= 0,
        prev == spec_apply_relas(d, buf0, base, ro, j),
        target == le64(d, ro + 24 * j),
        val as int == ((base as int) + le64(d, ro + 24 * j + 16)) % 0x1_0000_0000_0000_0000,
        target + 8 <= prev.len(),
        post.len() == prev.len(),
        forall|k: int| 0 <= k < 8 ==> post[target + k] == #[trigger] le_byte(val, k),
        forall|i: int| 0 <= i < prev.len() && !(target <= i < target + 8) ==> post[i] == prev[i],
    ensures
        post == spec_apply_relas(d, buf0, base, ro, j + 1),
{
    reveal(overwrite);
    reveal(spec_apply_relas);
    lemma_le64_bytes_value(val);
    assert(post =~= overwrite(prev, target, le64_bytes(val)));
}

/// Applies the `m` relocation entries at file offset `ro`, validating each
/// before anything of it is used.
#[verifier::rlimit(100)]
fn apply_relas(buf: &mut Vec<u8>, data: &[u8], ro: u64, m: u64, base: u64) -> (r: Result<
    (),
    LoadError,
>)
    ensures
        final(buf).len() == old(buf).len(),
        r is Ok ==> spec_relas_all_ok(data@, ro as int, m as int, old(buf).len() as int)
            && final(buf)@ == spec_apply_relas(data@, old(buf)@, base, ro as int, m as int),
        r is Err ==> !spec_relas_all_ok(data@, ro as int, m as int, old(buf).len() as int),
{
    let dlen: usize = data.len();
    let blen: usize = buf.len();
    proof {
        reveal(spec_apply_relas);
    }
    let mut j: u64 = 0;
    while j < m
        invariant
            j <= m,
            dlen == data@.len(),
            blen == buf.len(),
            blen == old(buf).len(),
            buf@ == spec_apply_relas(data@, old(buf)@, base, ro as int, j as int),
            forall|jj: int| 0 <= jj < j ==> #[trigger] spec_rela_ok(data@, ro as int, jj, blen as int),
        decreases m - j,
    {
        if !(ro as u128 + 24 * (j as u128) + 24 <= dlen as u128) {
            proof {
                reveal(spec_rela_ok);
                assert(!spec_rela_ok(data@, ro as int, j as int, blen as int));
                assert(!spec_relas_all_ok(data@, ro as int, m as int, blen as int));
            }
            return Err(LoadError::SegmentOutOfRange);
        }
        let e = (ro + 24 * j) as usize;
        let r_offset = read_u64_le(data, e);
        let r_info = read_u64_le(data, e + 8);
        let r_addend = read_u64_le(data, e + 16);
        let rtype = (r_info % 0x1_0000_0000) as u32;
        if rtype as u64 != R_RELATIVE {
            proof {
                reveal(spec_rela_ok);
                assert(!spec_rela_ok(data@, ro as int, j as int, blen as int));
                assert(!spec_relas_all_ok(data@, ro as int, m as int, blen as int));
            }
            return Err(LoadError::UnsupportedRelocation(rtype));
        }
        if !(r_offset as u128 + 8 <= blen as u128) {
            proof {
                reveal(spec_rela_ok);
                assert(!spec_rela_ok(data@, ro as int, j as int, blen as int));
                assert(!spec_relas_all_ok(data@, ro as int, m as int, blen as int));
            }
            return Err(LoadError::SegmentOutOfRange);
        }
        proof {
            reveal(spec_rela_ok);
            assert(spec_rela_ok(data@, ro as int, j as int, blen as int));
        }
        let ghost prev = buf@;
        let val = base.wrapping_add(r_addend);
        write_u64_le(buf, r_offset as usize, val);
        proof {
            assert(val as int == ((base as int) + le64(data@, ro + 24 * (j as int) + 16))
                % 0x1_0000_0000_0000_0000);
            lemma_rela_write_step(
                data@,
                old(buf)@,
                prev,
                buf@,
                base,
                ro as int,
                j as int,
                val,
                r_offset as int,
            );
        }
        j = j + 1;
    }
    proof {
        assert(spec_relas_all_ok(data@, ro as int, m as int, blen as int));
    }
    Ok(())
}

/// A relocation table with one bad entry makes its dynamic segment
/// unacceptable.
proof fn lemma_dynamic_not_ok(d: Seq<u8>, i: int, buflen: int, ro: int, sz: int, en: int)
    requires
        spec_dyn_find(d, spec_ph_offset(d, i), spec_ph_filesz(d, i) / 16, 0, DT_RELA as int)
            == Some(ro),
        spec_dyn_find(d, spec_ph_offset(d, i), spec_ph_filesz(d, i) / 16, 0, DT_RELASZ as int)
            == Some(sz),
        spec_dyn_find(d, spec_ph_offset(d, i), spec_ph_filesz(d, i) / 16, 0, DT_RELAENT as int)
            == Some(en),
        en > 0,
        !spec_relas_all_ok(d, ro, sz / en, buflen),
    ensures
        !spec_dynamic_ok(d, i, buflen),
{
    if spec_dynamic_ok(d, i, buflen) {
        assert(spec_relas_all_ok(d, ro, sz / en, buflen));
        assert(false);
    }
}

/// A loadable segment's copy extends the program-header fold by one step.
proof fn lemma_phdr_load_step(
    d: Seq<u8>,
    buf0: Seq<u8>,
    prev: Seq<u8>,
    post: Seq<u8>,
    base: u64,
    i: int,
)
    requires
        i >= 0,
        prev == spec_apply_phdrs(d, buf0, base, i),
        spec_ph_type(d, i) == PT_LOAD,
        post == overwrite(
            prev,
            spec_ph_vaddr(d, i),
            d.subrange(spec_ph_offset(d, i), spec_ph_offset(d, i) + spec_ph_filesz(d, i)),
        ),
    ensures
        post == spec_apply_phdrs(d, buf0, base, i + 1),
{
}

/// A dynamic segment's relocations extend the program-header fold by one
/// step.
proof fn lemma_phdr_dynamic_step(
    d: Seq<u8>,
    buf0: Seq<u8>,
    prev: Seq<u8>,
    post: Seq<u8>,
    base: u64,
    i: int,
)
    requires
        i >= 0,
        prev == spec_apply_phdrs(d, buf0, base, i),
        spec_ph_type(d, i) == PT_DYNAMIC,
        post == spec_apply_dynamic(d, prev, base, i),
    ensures
        post == spec_apply_phdrs(d, buf0, base, i + 1),
{
}

/// Any other program header leaves the fold unchanged.
proof fn lemma_phdr_skip_step(d: Seq<u8>, buf0: Seq<u8>, prev: Seq<u8>, base: u64, i: int)
    requires
        i >= 0,
        prev == spec_apply_phdrs(d, buf0, base, i),
        spec_ph_type(d, i) != PT_LOAD,
        spec_ph_type(d, i) != PT_DYNAMIC,
    ensures
        prev == spec_apply_phdrs(d, buf0, base, i + 1),
{
}

/// The highest byte past any loadable segment, and whether there is one.
fn measure_image(data: &[u8]) -> (r: (u128, bool))
    requires
        spec_header_ok(data@),
    ensures
        r.0 as int == spec_image_size(data@, spec_phnum(data@)),
        r.1 == spec_has_load(data@, spec_phnum(data@)),
{
    let dlen: usize = data.len();
    let phoff = read_u64_le(data, 32);
    let phentsize = read_u16_le(data, 54) as u64;
    let phnum = read_u16_le(data, 56) as u64;
    let mut size: u128 = 0;
    let mut has_load = false;
    let mut i: u64 = 0;
    while i < phnum
        invariant
            spec_header_ok(data@),
            dlen == data@.len(),
            phoff as int == spec_phoff(data@),
            phentsize as int == spec_phentsize(data@),
            phnum as int == spec_phnum(data@),
            i <= phnum,
            size as int == spec_image_size(data@, i as int),
            has_load == spec_has_load(data@, i as int),
        decreases phnum - i,
    {
        proof {
            vstd::arithmetic::mul::lemma_mul_inequality(
                i as int + 1,
                phnum as int,
                phentsize as int,
            );
            vstd::arithmetic::mul::lemma_mul_is_distributive_add_other_way(
                phentsize as int,
                i as int,
                1,
            );
        }
        let ph = (phoff + i * phentsize) as usize;
        let ptype = read_u32_le(data, ph);
        if ptype == PT_LOAD {
            has_load = true;
            let vaddr = read_u64_le(data, ph + 16);
            let memsz = read_u64_le(data, ph + 40);
            let end = vaddr as u128 + memsz as u128;
            if end > size {
                size = end;
            }
        }
        i = i + 1;
    }
    (size, has_load)
}

/// Builds the image of a position-independent executable: validates the
/// header, sizes the image by its highest loadable byte rounded up to whole
/// pages, copies every loadable segment into a zero-filled buffer, and
/// applies the relocations its dynamic section names, with `reloc_base` as
/// the base address. The whole file is validated as it is processed; an
/// image is either accepted in full or rejected with the reason.
#[verifier::rlimit(100)]
pub fn build_image(data: &[u8], reloc_base: u64) -> (r: Result<LoadedImage, LoadError>)
    ensures
        r is Ok <==> spec_loadable(data@),
        r matches Ok(img) ==> {
            &&& img.entry_offset as int == spec_entry(data@)
            &&& img.pages as int == spec_image_pages(data@)
            &&& img.bytes.len() == spec_image_pages(data@) * PAGE_SIZE
            &&& img.bytes@ == spec_apply_phdrs(
                data@,
                Seq::new((spec_image_pages(data@) * PAGE_SIZE) as nat, |i: int| 0u8),
                reloc_base,
                spec_phnum(data@),
            )
        },
        !spec_header_ok(data@) ==> r == Err::<LoadedImage, LoadError>(LoadError::BadImage),
        spec_header_ok(data@) && !spec_has_load(data@, spec_phnum(data@)) ==> r == Err::<
            LoadedImage,
            LoadError,
        >(LoadError::NoLoadableSegments),
{
    let dlen: usize = data.len();
    if dlen < 64 {
        return Err(LoadError::BadImage);
    }
    if !(data[0] == 0x7f && data[1] == 0x45 && data[2] == 0x4c && data[3] == 0x46) {
        return Err(LoadError::BadImage);
    }
    let phoff = read_u64_le(data, 32);
    let phentsize = read_u16_le(data, 54) as u64;
    let phnum = read_u16_le(data, 56) as u64;
    if phentsize < 56 {
        return Err(LoadError::BadImage);
    }
    proof {
        assert(phnum * phentsize <= 0xffff * 0xffff) by (nonlinear_arith)
            requires
                phnum <= 0xffff,
                phentsize <= 0xffff,
        ;
    }
    if phoff > dlen as u64 || phnum * phentsize > dlen as u64 - phoff {
        return Err(LoadError::BadImage);
    }
    let (size128, has_load) = measure_image(data);
    if !has_load {
        return Err(LoadError::NoLoadableSegments);
    }
    if size128 > usize::MAX as u128 {
        return Err(LoadError::ImageTooLarge);
    }
    let size = size128 as u64;
    let pages: u64 = size / PAGE_SIZE + (
    if size % PAGE_SIZE != 0 {
        1
    } else {
        0
    });
    if pages as u128 * PAGE_SIZE as u128 > usize::MAX as u128 {
        return Err(LoadError::ImageTooLarge);
    }
    let buflen: usize = (pages * PAGE_SIZE) as usize;
    let mut buf = zero_vec(buflen);
    let ghost zeros = Seq::new(buflen as nat, |i: int| 0u8);
    let entry_offset = read_u64_le(data, 24);
    let mut i: u64 = 0;
    while i < phnum
        invariant
            spec_header_ok(data@),
            dlen == data@.len(),
            phoff as int == spec_phoff(data@),
            phentsize as int == spec_phentsize(data@),
            phnum as int == spec_phnum(data@),
            buflen as int == spec_image_pages(data@) * PAGE_SIZE,
            buf.len() == buflen,
            zeros == Seq::new(buflen as nat, |i: int| 0u8),
            i <= phnum,
            spec_has_load(data@, spec_phnum(data@)),
            spec_image_size(data@, spec_phnum(data@)) <= usize::MAX,
            buf@ == spec_apply_phdrs(data@, zeros, reloc_base, i as int),
            forall|j: int|
                0 <= j < i && (#[trigger] spec_ph_type(data@, j)) == PT_LOAD
                    ==> spec_load_in_range(data@, j, buflen as int),
            forall|j: int|
                0 <= j < i && (#[trigger] spec_ph_type(data@, j)) == PT_DYNAMIC
                    ==> spec_dynamic_ok(data@, j, buflen as int),
        decreases phnum - i,
    {
        proof {
            vstd::arithmetic::mul::lemma_mul_inequality(
                i as int + 1,
                phnum as int,
                phentsize as int,
            );
            vstd::arithmetic::mul::lemma_mul_is_distributive_add_other_way(
                phentsize as int,
                i as int,
                1,
            );
        }
        let ph = (phoff + i * phentsize) as usize;
        let ptype = read_u32_le(data, ph);
        let ghost prev = buf@;
        proof {
            assert(ptype as int == spec_ph_type(data@, i as int));
        }
        if ptype == PT_LOAD {
            let offset = read_u64_le(data, ph + 8);
            let vaddr = read_u64_le(data, ph + 16);
            let filesz = read_u64_le(data, ph + 32);
            if vaddr as u128 + filesz as u128 > buflen as u128 || offset as u128 + filesz as u128
                > dlen as u128 {
                proof {
                    assert(!spec_load_in_range(data@, i as int, buflen as int));
                    assert(!spec_loadable(data@));
                }
                return Err(LoadError::SegmentOutOfRange);
            }
            copy_into(&mut buf, vaddr as usize, data, offset as usize, filesz as usize);
            proof {
                lemma_phdr_load_step(data@, zeros, prev, buf@, reloc_base, i as int);
            }
        } else if ptype == PT_DYNAMIC {
            let offset = read_u64_le(data, ph + 8);
            let filesz = read_u64_le(data, ph + 32);
            if offset as u128 + filesz as u128 > dlen as u128 {
                proof {
                    assert(!spec_dynamic_ok(data@, i as int, buflen as int));
                    assert(!spec_loadable(data@));
                }
                return Err(LoadError::SegmentOutOfRange);
            }
            let count = filesz / 16;
            proof {
                vstd::arithmetic::div_mod::lemma_fundamental_div_mod(filesz as int, 16);
            }
            let rela = dyn_find(data, offset, count, DT_RELA);
            let relasz = dyn_find(data, offset, count, DT_RELASZ);
            let relaent = dyn_find(data, offset, count, DT_RELAENT);
            match (rela, relasz, relaent) {
                (Some(ro), Some(sz), Some(en)) => {
                    if en == 0 {
                        proof {
                            assert(!spec_dynamic_ok(data@, i as int, buflen as int));
                            assert(!spec_loadable(data@));
                        }
                        return Err(LoadError::BadImage);
                    }
                    let m = sz / en;
                    let res = apply_relas(&mut buf, data, ro, m, reloc_base);
                    match res {
                        Ok(()) => {
                            proof {
                                assert(buf@ == spec_apply_dynamic(
                                    data@,
                                    prev,
                                    reloc_base,
                                    i as int,
                                ));
                                lemma_phdr_dynamic_step(
                                    data@,
                                    zeros,
                                    prev,
                                    buf@,
                                    reloc_base,
                                    i as int,
                                );
                                assert(spec_dynamic_ok(data@, i as int, buflen as int));
                            }
                        },
                        Err(e) => {
                            proof {
                                assert(offset as int == spec_ph_offset(data@, i as int));
                                assert(count as int == spec_ph_filesz(data@, i as int) / 16);
                                assert(spec_dyn_find(
                                    data@,
                                    offset as int,
                                    count as int,
                                    0,
                                    DT_RELA as int,
                                ) == Some(ro as int));
                                assert(spec_dyn_find(
                                    data@,
                                    offset as int,
                                    count as int,
                                    0,
                                    DT_RELASZ as int,
                                ) == Some(sz as int));
                                assert(spec_dyn_find(
                                    data@,
                                    offset as int,
                                    count as int,
                                    0,
                                    DT_RELAENT as int,
                                ) == Some(en as int));
                                assert(m as int == sz as int / en as int);
                                assert(!spec_relas_all_ok(
                                    data@,
                                    ro as int,
                                    sz as int / en as int,
                                    buflen as int,
                                ));
                                lemma_dynamic_not_ok(
                                    data@,
                                    i as int,
                                    buflen as int,
                                    ro as int,
                                    sz as int,
                                    en as int,
                                );
                                assert(!spec_dynamic_ok(data@, i as int, buflen as int));
                                assert(!spec_loadable(data@));
                            }
                            return Err(e);
                        },
                    }
                },
                _ => {
                    proof {
                        assert(buf@ == spec_apply_dynamic(data@, prev, reloc_base, i as int));
                        lemma_phdr_dynamic_step(data@, zeros, prev, buf@, reloc_base, i as int);
                        assert(spec_dynamic_ok(data@, i as int, buflen as int));
                    }
                },
            }
        } else {
            proof {
                lemma_phdr_skip_step(data@, zeros, prev, reloc_base, i as int);
            }
        }
        i = i + 1;
    }
    proof {
        assert(spec_loadable(data@));
    }
    Ok(LoadedImage { bytes: buf, entry_offset, pages })
}

} // verus!
