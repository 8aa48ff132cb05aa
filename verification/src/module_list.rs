//! The module-list stream: loaded images sorted by load address and
//! deduplicated, each resolved from its load commands to a base address,
//! size, identifier, and version.
//!
//! The base of an image is its preferred address plus its slide — never the
//! raw preferred address, which differs from the loaded address by an
//! arbitrary amount under address-space randomization.

use vstd::prelude::*;
use vstd::multiset::Multiset;
use vstd::seq_lib::lemma_multiset_commutative;

use crate::errors::{LoadCommandKind, StreamError, TaskDumpError};
use crate::mem_writer::{md_string_bytes, write_string_to_location, DumpBuf};
use crate::minidump_format::{
    le32, lemma_records_bytes_push, records_bytes, MDLocationDescriptor, MDRawDirectory,
    MDRawModule, MDStreamType, VSFixedFileInfo, MD_MODULE_SIZE, VS_FFI_SIGNATURE,
    VS_FFI_STRUCVERSION,
};
use crate::minidump_format::{push_bytes, push_u32_le};
use crate::minidump_writer::{buf_extended, lemma_buf_extended_trans, MinidumpWriter};
use crate::snapshot::{ImageCapture, LoadCommandFact};

verus! {

/// CodeView record signature for a standalone identifier record.
pub const CV_SIGNATURE: u32 = 0x53445352;

// ---------------------------------------------------------------------------
// Load-command scanning
// ---------------------------------------------------------------------------

/// Whether a segment name starts with `__TEXT` followed by a NUL.
pub open spec fn is_text_segment_name(name: Seq<u8>) -> bool {
    &&& name.len() >= 7
    &&& name[0] == 0x5f
    &&& name[1] == 0x5f
    &&& name[2] == 0x54
    &&& name[3] == 0x45
    &&& name[4] == 0x58
    &&& name[5] == 0x54
    &&& name[6] == 0
}

/// What one pass over an image's load commands finds: the first `__TEXT`
/// segment's preferred address and size, the first dylib version, and the
/// first identifier.
pub open spec fn spec_image_scan(cmds: Seq<LoadCommandFact>) -> (
    Option<(u64, u64)>,
    Option<u32>,
    Option<Seq<u8>>,
)
    decreases cmds.len(),
{
    if cmds.len() == 0 {
        (None::<(u64, u64)>, None::<u32>, None::<Seq<u8>>)
    } else {
        let tail = spec_image_scan(cmds.drop_first());
        let text = match cmds[0] {
            LoadCommandFact::Segment { segment_name, vm_addr, vm_size } => {
                if is_text_segment_name(segment_name@) {
                    Some((vm_addr, vm_size))
                } else {
                    tail.0
                }
            },
            _ => tail.0,
        };
        let dylib = match cmds[0] {
            LoadCommandFact::Dylib { current_version } => Some(current_version),
            _ => tail.1,
        };
        let uuid = match cmds[0] {
            LoadCommandFact::Uuid { uuid } => Some(uuid@),
            _ => tail.2,
        };
        (text, dylib, uuid)
    }
}

/// Whether an image's load commands carry everything a module record needs:
/// a `__TEXT` segment and an identifier.
pub open spec fn spec_image_resolvable(img: ImageCapture) -> bool {
    &&& spec_image_scan(img.load_commands@).0 is Some
    &&& spec_image_scan(img.load_commands@).2 is Some
}

/// The preferred `__TEXT` address and size an image resolves to.
struct ImageLoadInfo {
    /// The preferred load address of the `__TEXT` segment.
    vm_addr: u64,
    /// The size of the `__TEXT` segment.
    vm_size: u64,
    /// The difference between the image's actual and preferred load address.
    slide: i128,
}

/// Everything a module record needs, resolved from one image.
struct ImageDetails {
    uuid: Vec<u8>,
    load_info: ImageLoadInfo,
    file_path: Option<String>,
    version: Option<u32>,
}

/// Resolves one image's load commands, stopping early once a segment, a
/// version, and an identifier have all been found.
///
/// Fails — with the load command that was missing — if and only if the
/// commands hold no `__TEXT` segment or no identifier; a missing version is
/// tolerated.
fn read_image_details(image: &ImageCapture) -> (r: Result<ImageDetails, TaskDumpError>)
    ensures
        match r {
            Ok(details) => {
                let scan = spec_image_scan(image.load_commands@);
                &&& spec_image_resolvable(*image)
                &&& Some((details.load_info.vm_addr, details.load_info.vm_size)) == scan.0
                &&& details.load_info.slide == image.info.load_address
                    - details.load_info.vm_addr
                &&& Some(details.uuid@) == scan.2
                &&& details.version == scan.1
                &&& details.file_path == image.file_path
            },
            Err(_) => !spec_image_resolvable(*image),
        },
{
    let ghost cmds = image.load_commands@;
    let n = image.load_commands.len();
    let mut load_info: Option<(u64, u64)> = None;
    let mut version: Option<u32> = None;
    let mut uuid: Option<&Vec<u8>> = None;

    let mut i: usize = 0;
    proof {
        assert(cmds.skip(0) =~= cmds);
    }
    while i < n
        invariant_except_break
            i <= n,
            cmds == image.load_commands@,
            n == cmds.len(),
            spec_image_scan(cmds) == {
                let tail = spec_image_scan(cmds.skip(i as int));
                (
                    if load_info is Some {
                        load_info
                    } else {
                        tail.0
                    },
                    if version is Some {
                        version
                    } else {
                        tail.1
                    },
                    match uuid {
                        Some(u) => Some(u@),
                        None => tail.2,
                    },
                )
            },
        ensures
            spec_image_scan(cmds).0 == load_info,
            spec_image_scan(cmds).1 == version,
            spec_image_scan(cmds).2 == (match uuid {
                Some(u) => Some(u@),
                None => None::<Seq<u8>>,
            }),
        decreases n - i,
    {
        proof {
            assert(cmds.skip(i as int).drop_first() =~= cmds.skip(i + 1));
            assert(cmds.skip(i as int)[0] == cmds[i as int]);
        }
        let lc = &image.load_commands[i];
        match lc {
            LoadCommandFact::Segment { segment_name, vm_addr, vm_size } => {
                if load_info.is_none() {
                    if segment_name.len() >= 7 && segment_name[0] == 0x5f && segment_name[1] == 0x5f
                        && segment_name[2] == 0x54 && segment_name[3] == 0x45 && segment_name[4]
                        == 0x58 && segment_name[5] == 0x54 && segment_name[6] == 0 {
                        load_info = Some((*vm_addr, *vm_size));
                    }
                }
            },
            LoadCommandFact::Dylib { current_version } => {
                if version.is_none() {
                    version = Some(*current_version);
                }
            },
            LoadCommandFact::Uuid { uuid: img_id } => {
                if uuid.is_none() {
                    uuid = Some(img_id);
                }
            },
            LoadCommandFact::Other => {},
        }
        i = i + 1;
        if load_info.is_some() && version.is_some() && uuid.is_some() {
            break ;
        }
    }
    proof {
        assert(cmds.skip(n as int) =~= Seq::<LoadCommandFact>::empty());
    }

    let (vm_addr, vm_size) = match load_info {
        Some(li) => li,
        None => {
            return Err(
                TaskDumpError::MissingLoadCommand {
                    name: "LC_SEGMENT_64",
                    id: LoadCommandKind::Segment,
                },
            );
        },
    };
    let uuid = match uuid {
        Some(u) => u.clone(),
        None => {
            return Err(
                TaskDumpError::MissingLoadCommand { name: "LC_UUID", id: LoadCommandKind::Uuid },
            );
        },
    };
    let slide: i128 = (image.info.load_address as i128) - (vm_addr as i128);
    Ok(
        ImageDetails {
            uuid,
            load_info: ImageLoadInfo { vm_addr, vm_size, slide },
            file_path: image.file_path.clone(),
            version,
        },
    )
}

// ---------------------------------------------------------------------------
// Sorting and deduplication
// ---------------------------------------------------------------------------

/// Whether the images stand in ascending load-address order.
pub open spec fn spec_images_sorted(s: Seq<ImageCapture>) -> bool {
    forall|i: int, j: int|
        0 <= i < j < s.len() ==> (#[trigger] s[i]).info.load_address
            <= (#[trigger] s[j]).info.load_address
}

/// The images left after removing later entries whose load address repeats:
/// of each run of equal addresses in a sorted sequence, the first survives.
pub open spec fn spec_dedup_images(s: Seq<ImageCapture>) -> Seq<ImageCapture>
    decreases s.len(),
{
    if s.len() == 0 {
        Seq::empty()
    } else {
        let rest = spec_dedup_images(s.drop_last());
        if rest.len() > 0 && rest.last().info.load_address == s.last().info.load_address {
            rest
        } else {
            rest.push(s.last())
        }
    }
}

/// Whether the images stand in strictly ascending load-address order: no two
/// share an address.
pub open spec fn spec_images_strict(s: Seq<ImageCapture>) -> bool {
    forall|i: int, j: int|
        0 <= i < j < s.len() ==> (#[trigger] s[i]).info.load_address < (#[trigger] s[
            j
        ]).info.load_address
}

/// Deduplicating a sorted sequence leaves strictly ascending load addresses,
/// each no larger than the last input's.
proof fn lemma_dedup_strict(s: Seq<ImageCapture>)
    requires
        spec_images_sorted(s),
    ensures
        spec_images_strict(spec_dedup_images(s)),
        s.len() > 0 ==> forall|k: int|
            0 <= k < spec_dedup_images(s).len() ==> (#[trigger] spec_dedup_images(s)[
                k
            ]).info.load_address <= s.last().info.load_address,
    decreases s.len(),
{
    if s.len() > 0 {
        let body = s.drop_last();
        assert(spec_images_sorted(body)) by {
            assert(forall|i: int, j: int|
                0 <= i < j < body.len() ==> body[i] == s[i] && body[j] == s[j]);
        }
        lemma_dedup_strict(body);
        let rest = spec_dedup_images(body);
        let d = spec_dedup_images(s);
        if rest.len() > 0 && rest.last().info.load_address == s.last().info.load_address {
            assert(d == rest);
            assert forall|k: int| 0 <= k < d.len() implies (#[trigger] d[k]).info.load_address
                <= s.last().info.load_address by {
                if k < d.len() - 1 {
                    assert(d[k].info.load_address < rest.last().info.load_address);
                }
            }
        } else {
            assert(d == rest.push(s.last()));
            assert forall|k: int| 0 <= k < rest.len() implies (#[trigger] rest[
                k
            ]).info.load_address < s.last().info.load_address by {
                assert(body.len() > 0);
                assert(rest[k].info.load_address <= body.last().info.load_address);
                assert(body.last() == s[s.len() - 2]);
                assert(s[s.len() - 2].info.load_address <= s.last().info.load_address);
                if rest[k].info.load_address == s.last().info.load_address {
                    assert(rest.last().info.load_address >= rest[k].info.load_address) by {
                        if k < rest.len() - 1 {
                            assert(rest[k].info.load_address < rest.last().info.load_address);
                        }
                    }
                    assert(rest.last().info.load_address <= body.last().info.load_address);
                }
            }
            assert forall|i: int, j: int| 0 <= i < j < d.len() implies (#[trigger] d[
                i
            ]).info.load_address < (#[trigger] d[j]).info.load_address by {
                if j < d.len() - 1 {
                    assert(d[i] == rest[i] && d[j] == rest[j]);
                } else {
                    assert(d[i] == rest[i] && d[j] == s.last());
                }
            }
        }
    }
}

/// The resolvable images of a sequence, in order: those whose load commands
/// hold a text segment and an identifier.
pub open spec fn spec_resolvable_images(s: Seq<ImageCapture>) -> Seq<ImageCapture>
    decreases s.len(),
{
    if s.len() == 0 {
        Seq::empty()
    } else {
        let rest = spec_resolvable_images(s.drop_last());
        if spec_image_resolvable(s.last()) {
            rest.push(s.last())
        } else {
            rest
        }
    }
}

/// A conservative byte budget for one image: its path string, its identifier
/// record, and its 108-byte module record.
pub open spec fn spec_image_cost(img: ImageCapture) -> int {
    (match img.file_path {
        Some(p) => md_string_bytes(p@).len() as int,
        None => 0,
    }) + 8 + (match spec_image_scan(img.load_commands@).2 {
        Some(u) => u.len() as int,
        None => 0,
    }) + 108
}

/// A conservative byte budget for a sequence of images.
pub open spec fn spec_images_cost(s: Seq<ImageCapture>) -> int
    decreases s.len(),
{
    if s.len() == 0 {
        0
    } else {
        spec_images_cost(s.drop_last()) + spec_image_cost(s.last())
    }
}

/// Budgets never run negative.
pub proof fn lemma_images_cost_nonneg(s: Seq<ImageCapture>)
    ensures
        spec_images_cost(s) >= 0,
    decreases s.len(),
{
    if s.len() > 0 {
        lemma_images_cost_nonneg(s.drop_last());
    }
}

/// The budget distributes over concatenation.
proof fn lemma_images_cost_concat(a: Seq<ImageCapture>, b: Seq<ImageCapture>)
    ensures
        spec_images_cost(a + b) == spec_images_cost(a) + spec_images_cost(b),
    decreases b.len(),
{
    if b.len() == 0 {
        assert(a + b =~= a);
    } else {
        assert((a + b).drop_last() =~= a + b.drop_last());
        assert((a + b).last() == b.last());
        lemma_images_cost_concat(a, b.drop_last());
    }
}

/// A prefix costs no more than the whole.
proof fn lemma_images_cost_prefix(s: Seq<ImageCapture>, i: int)
    requires
        0 <= i <= s.len(),
    ensures
        spec_images_cost(s.take(i)) <= spec_images_cost(s),
    decreases s.len() - i,
{
    if i < s.len() {
        lemma_images_cost_prefix(s, i + 1);
        assert(s.take(i + 1).drop_last() =~= s.take(i));
        assert(s.take(i + 1).last() == s[i]);
    } else {
        assert(s.take(i) =~= s);
    }
}

/// Deduplication only drops images, so it never raises the budget.
proof fn lemma_dedup_cost_le(s: Seq<ImageCapture>)
    ensures
        spec_images_cost(spec_dedup_images(s)) <= spec_images_cost(s),
    decreases s.len(),
{
    if s.len() > 0 {
        lemma_dedup_cost_le(s.drop_last());
        let rest = spec_dedup_images(s.drop_last());
        if !(rest.len() > 0 && rest.last().info.load_address == s.last().info.load_address) {
            assert(rest.push(s.last()).drop_last() =~= rest);
        }
    }
}

/// Sorts images by load address. The result holds exactly the input images.
fn sort_images(images: Vec<ImageCapture>) -> (out: Vec<ImageCapture>)
    ensures
        spec_images_sorted(out@),
        out@.to_multiset() == images@.to_multiset(),
        spec_images_cost(out@) == spec_images_cost(images@),
{
    broadcast use vstd::seq_lib::group_to_multiset_ensures;

    let mut rest = images;
    let ghost input = rest@;
    let mut out: Vec<ImageCapture> = Vec::new();
    proof {
        assert forall|a: ImageCapture| #[trigger] out@.to_multiset().count(a) == 0 by {
            assert(!out@.contains(a));
        }
        assert(out@.to_multiset().add(rest@.to_multiset()) =~= input.to_multiset());
    }
    loop
        invariant
            spec_images_sorted(out@),
            out@.to_multiset().add(rest@.to_multiset()) == input.to_multiset(),
            spec_images_cost(out@) + spec_images_cost(rest@) == spec_images_cost(input),
        ensures
            rest@.len() == 0,
            spec_images_cost(out@) == spec_images_cost(input),
        decreases rest@.len(),
    {
        broadcast use vstd::seq_lib::group_to_multiset_ensures;

        let ghost rest_before = rest@;
        let x = match rest.pop() {
            Some(x) => x,
            None => {
                break ;
            },
        };
        proof {
            assert(rest_before =~= rest@.push(x));
            assert(rest_before.to_multiset() =~= rest@.to_multiset().insert(x));
            assert(rest@.push(x).drop_last() =~= rest@);
            assert(spec_images_cost(rest_before) == spec_images_cost(rest@) + spec_image_cost(x));
        }
        // Find the first position whose load address exceeds the new image's.
        let m = out.len();
        let mut k: usize = 0;
        while k < m
            invariant_except_break
                k <= m,
                m == out@.len(),
                forall|j: int|
                    0 <= j < k ==> (#[trigger] out@[j]).info.load_address <= x.info.load_address,
            ensures
                k <= m,
                m == out@.len(),
                forall|j: int|
                    0 <= j < k ==> (#[trigger] out@[j]).info.load_address <= x.info.load_address,
                k < m ==> out@[k as int].info.load_address > x.info.load_address,
            decreases m - k,
        {
            if out[k].info.load_address > x.info.load_address {
                break ;
            }
            k = k + 1;
        }
        let ghost out_before = out@;
        out.insert(k, x);
        proof {
            assert(out@.to_multiset() == out_before.to_multiset().insert(x));
            assert(out@ =~= (out_before.take(k as int) + seq![x]) + out_before.skip(k as int));
            lemma_images_cost_concat(
                out_before.take(k as int) + seq![x],
                out_before.skip(k as int),
            );
            lemma_images_cost_concat(out_before.take(k as int), seq![x]);
            lemma_images_cost_concat(out_before.take(k as int), out_before.skip(k as int));
            assert(out_before.take(k as int) + out_before.skip(k as int) =~= out_before);
            assert(seq![x].drop_last() =~= Seq::<ImageCapture>::empty());
            assert(seq![x].last() == x);
            assert(spec_images_cost(seq![x]) == spec_images_cost(Seq::<ImageCapture>::empty())
                + spec_image_cost(x));
            assert(spec_images_cost(out@) == spec_images_cost(out_before) + spec_image_cost(x));
            assert(out@.to_multiset().add(rest@.to_multiset()) =~= input.to_multiset());
            assert forall|a: int, b: int| 0 <= a < b < out@.len() implies (#[trigger] out@[
                a
            ]).info.load_address <= (#[trigger] out@[b]).info.load_address by {
                assert(forall|j: int|
                    0 <= j < out_before.len() && j >= k ==> (#[trigger] out_before[
                        j
                    ]).info.load_address >= out_before[k as int].info.load_address);
            }
        }
    }
    proof {
        assert forall|a: ImageCapture| #[trigger] rest@.to_multiset().count(a) == 0 by {
            assert(!rest@.contains(a));
        }
        assert(out@.to_multiset() =~= input.to_multiset());
    }
    out
}

/// Removes images whose load address equals an earlier image's: of each run
/// of equal addresses, the first survives.
fn dedup_images(images: Vec<ImageCapture>) -> (out: Vec<ImageCapture>)
    ensures
        out@ == spec_dedup_images(images@),
{
    let n = images.len();
    let mut rest = images;
    let mut out: Vec<ImageCapture> = Vec::new();
    let mut i: usize = 0;
    // Consume from the front by reversing first.
    let ghost input = rest@;
    while i < n
        invariant
            i <= n,
            n == input.len(),
            rest@ == input.skip(i as int),
            out@ == spec_dedup_images(input.take(i as int)),
        decreases n - i,
    {
        let keep = if out.len() == 0 {
            true
        } else {
            out[out.len() - 1].info.load_address != rest[0].info.load_address
        };
        let x = rest.remove(0);
        if keep {
            out.push(x);
        }
        proof {
            assert(input.take(i + 1).drop_last() =~= input.take(i as int));
            assert(input.take(i + 1).last() == input[i as int]);
            assert(rest@ =~= input.skip(i + 1));
        }
        i = i + 1;
    }
    assert(input.take(n as int) =~= input);
    out
}

// ---------------------------------------------------------------------------
// Writing
// ---------------------------------------------------------------------------

/// The version record written for a dylib version `v`, whose hexadecimal
/// digits encode `major.minor.patch` as `0xMMMMmmpp`.
pub open spec fn spec_version_info(version: Option<u32>) -> VSFixedFileInfo {
    match version {
        Some(v) => {
            let major = (v >> 16) & 0xffff;
            let minor = (v >> 8) & 0xff;
            let patch = v & 0xff;
            VSFixedFileInfo {
                signature: VS_FFI_SIGNATURE,
                struct_version: VS_FFI_STRUCVERSION,
                file_version_hi: (major << 16) | minor,
                file_version_lo: patch << 16,
                product_version_hi: (major << 16) | minor,
                product_version_lo: patch << 16,
                file_flags_mask: 0x3f,
                file_flags: 0,
                file_os: 0x00040004,
                file_type: 0x00000001,
                file_subtype: 0,
                file_date_hi: 0,
                file_date_lo: 0,
            }
        },
        None => VSFixedFileInfo {
            signature: 0,
            struct_version: 0,
            file_version_hi: 0,
            file_version_lo: 0,
            product_version_hi: 0,
            product_version_lo: 0,
            file_flags_mask: 0,
            file_flags: 0,
            file_os: 0,
            file_type: 0,
            file_subtype: 0,
            file_date_hi: 0,
            file_date_lo: 0,
        },
    }
}

/// How a module record must relate to the image it was resolved from.
///
/// Its base is the preferred `__TEXT` address plus the slide — which is to
/// say, the image's actual load address — and its size is the `__TEXT`
/// segment's size. Its version record follows the dylib version when one was
/// found.
pub open spec fn module_md_ok(m: MDRawModule, img: ImageCapture) -> bool {
    let scan = spec_image_scan(img.load_commands@);
    &&& spec_image_resolvable(img)
    &&& m.base_of_image == scan.0->Some_0.0 + (img.info.load_address
        - scan.0->Some_0.0)
    &&& m.base_of_image == img.info.load_address
    &&& m.size_of_image == scan.0->Some_0.1 as u32
    &&& m.version_info == spec_version_info(scan.1)
    &&& m.checksum == 0
    &&& m.time_date_stamp == 0
    &&& m.cv_record.data_size == 8 + scan.2->Some_0.len()
}

/// How the emitted module records relate to the input images: the arranged
/// images are the input sorted by load address with repeated addresses
/// dropped — strictly ascending, every one an input image — and the records
/// correspond one to one, in order, to the arranged images whose load
/// commands resolve. An image missing its text segment or identifier is
/// skipped, never fatal, and every resolvable arranged image yields a record.
///
/// Opaque so callers carry it folded; reveal it to use it.
#[verifier::opaque]
pub open spec fn module_list_arrangement(
    images: Seq<ImageCapture>,
    arranged: Seq<ImageCapture>,
    modules: Seq<MDRawModule>,
) -> bool {
    &&& spec_images_sorted(arranged)
    &&& spec_images_strict(arranged)
    &&& forall|k: int|
        0 <= k < arranged.len() ==> images.to_multiset().contains(#[trigger] arranged[k])
    &&& modules.len() == spec_resolvable_images(arranged).len()
    &&& forall|k: int|
        0 <= k < modules.len() ==> module_md_ok(
            #[trigger] modules[k],
            spec_resolvable_images(arranged)[k],
        )
}

impl MinidumpWriter {
    /// Writes the module-list stream: images sorted by load address and
    /// deduplicated, images missing their required load commands skipped,
    /// each remaining image's path and identifier written, then a leading
    /// `u32` count and the contiguous module records.
    ///
    /// Returns the directory entry together with the written records and the
    /// deduplicated images they were resolved from, position by position.
    #[verifier::rlimit(100)]
    #[verifier::spinoff_prover]
    #[verifier::rlimit(100)]
    #[verifier::spinoff_prover]
    pub fn write_module_list(&mut self, buffer: &mut DumpBuf, images: Vec<ImageCapture>) -> (r:
        Result<(MDRawDirectory, Ghost<Seq<MDRawModule>>, Ghost<Seq<ImageCapture>>), StreamError>)
        requires
            old(buffer).wf(),
        ensures
            final(buffer).wf(),
            buf_extended(old(buffer).bytes(), final(buffer).bytes()),
            *final(self) == *old(self),
            // Success is owed whenever the stream's conservative budget fits
            // the 32-bit offset space.
            old(buffer).bytes().len() + 4 + spec_images_cost(images@) <= u32::MAX ==> r is Ok,
            final(buffer).bytes().len() <= old(buffer).bytes().len() + 4 + spec_images_cost(
                images@,
            ),
            match r {
                Ok((dirent, modules, arranged)) => {
                    &&& dirent.stream_type == MDStreamType::ModuleListStream.spec_value()
                    &&& old(buffer).bytes().len() <= dirent.location.rva
                    &&& dirent.location.rva + dirent.location.data_size
                        <= final(buffer).bytes().len()
                    &&& dirent.location.data_size == 4 + 108 * modules@.len()
                    &&& final(buffer).bytes().subrange(
                        dirent.location.rva as int,
                        dirent.location.rva + dirent.location.data_size,
                    ) == le32(modules@.len() as u32) + records_bytes(modules@)
                    &&& module_list_arrangement(images@, arranged@, modules@)
                },
                Err(_) => true,
            },
    {
        let ghost buf0 = buffer.bytes();
        let ghost images0 = images@;
        let sorted = sort_images(images);
        let ghost sorted_seq = sorted@;
        let deduped = dedup_images(sorted);
        let ghost dedup_seq = deduped@;
        proof {
            lemma_dedup_multiset_subset(sorted_seq, images0.to_multiset());
            lemma_dedup_cost_le(sorted_seq);
            lemma_dedup_strict(sorted_seq);
            assert(dedup_seq.take(0) =~= Seq::<ImageCapture>::empty());
        }

        let n = deduped.len();
        let mut modules: Vec<MDRawModule> = Vec::new();
        let mut i: usize = 0;
        while i < n
            invariant
                i <= n,
                n == dedup_seq.len(),
                deduped@ == dedup_seq,
                buffer.wf(),
                buf0 == old(buffer).bytes(),
                images0 == images@,
                buf_extended(buf0, buffer.bytes()),
                spec_images_cost(dedup_seq) <= spec_images_cost(images0),
                buffer.bytes().len() + 108 * modules@.len() <= buf0.len() + spec_images_cost(
                    dedup_seq.take(i as int),
                ),
                modules@.len() == spec_resolvable_images(dedup_seq.take(i as int)).len(),
                forall|k: int|
                    0 <= k < modules@.len() ==> module_md_ok(
                        #[trigger] modules@[k],
                        spec_resolvable_images(dedup_seq.take(i as int))[k],
                    ),
                forall|idx: int|
                    0 <= idx < dedup_seq.len() ==> images0.to_multiset().contains(
                        #[trigger] dedup_seq[idx],
                    ),
                *self == *old(self),
            decreases n - i,
        {
            let ghost buf_iter = buffer.bytes();
            proof {
                lemma_images_cost_prefix(dedup_seq, i + 1);
                assert(dedup_seq.take(i + 1).drop_last() =~= dedup_seq.take(i as int));
                assert(dedup_seq.take(i + 1).last() == dedup_seq[i as int]);
                assert(spec_resolvable_images(dedup_seq.take(i + 1))
                    == if spec_image_resolvable(dedup_seq[i as int]) {
                    spec_resolvable_images(dedup_seq.take(i as int)).push(dedup_seq[i as int])
                } else {
                    spec_resolvable_images(dedup_seq.take(i as int))
                });
            }
            let image = &deduped[i];
            let details = match read_image_details(image) {
                Ok(d) => d,
                Err(_) => {
                    // An image whose required load commands cannot be found is
                    // skipped, never fatal.
                    proof {
                        assert(spec_image_cost(dedup_seq[i as int]) >= 0);
                    }
                    i = i + 1;
                    continue ;
                },
            };

            let base_of_image: u64 = image.info.load_address;
            let version_info = match details.version {
                Some(v) => {
                    let major = (v >> 16) & 0xffff;
                    let minor = (v >> 8) & 0xff;
                    let patch = v & 0xff;
                    VSFixedFileInfo {
                        signature: VS_FFI_SIGNATURE,
                        struct_version: VS_FFI_STRUCVERSION,
                        file_version_hi: (major << 16) | minor,
                        file_version_lo: patch << 16,
                        product_version_hi: (major << 16) | minor,
                        product_version_lo: patch << 16,
                        file_flags_mask: 0x3f,
                        file_flags: 0,
                        file_os: 0x00040004,
                        file_type: 0x00000001,
                        file_subtype: 0,
                        file_date_hi: 0,
                        file_date_lo: 0,
                    }
                },
                None => VSFixedFileInfo::default(),
            };

            // Write the module's path, when known.
            let mut module_name_rva: u32 = 0;
            match &details.file_path {
                Some(path) => {
                    let loc = match write_string_to_location(buffer, path.as_str()) {
                        Ok(loc) => loc,
                        Err(e) => {
                            proof {
                                lemma_buf_extended_trans(buf0, buf_iter, buffer.bytes());
                            }
                            return Err(StreamError::MemoryWriterError(e));
                        },
                    };
                    module_name_rva = loc.rva;
                },
                None => {},
            }

            // Write the identifier record: signature, identifier bytes, age.
            let mut cv_bytes: Vec<u8> = Vec::new();
            push_u32_le(&mut cv_bytes, CV_SIGNATURE);
            push_bytes(&mut cv_bytes, details.uuid.as_slice());
            push_u32_le(&mut cv_bytes, 0);
            let cv_rva = match buffer.write_all(cv_bytes.as_slice()) {
                Ok(rva) => rva,
                Err(e) => {
                    proof {
                        lemma_buf_extended_trans(buf0, buf_iter, buffer.bytes());
                    }
                    return Err(StreamError::MemoryWriterError(e));
                },
            };

            let module = MDRawModule {
                base_of_image,
                size_of_image: details.load_info.vm_size as u32,
                checksum: 0,
                time_date_stamp: 0,
                module_name_rva,
                version_info,
                cv_record: MDLocationDescriptor {
                    data_size: cv_bytes.len() as u32,
                    rva: cv_rva,
                },
                misc_record: MDLocationDescriptor { data_size: 0, rva: 0 },
                reserved0: [0; 2],
                reserved1: [0; 2],
            };
            modules.push(module);
            proof {
                assert(module_md_ok(module, dedup_seq[i as int]));
                assert(modules@.drop_last() =~= modules@.take(modules@.len() - 1));
                lemma_buf_extended_trans(buf0, buf_iter, buffer.bytes());
            }
            i = i + 1;
        }
        proof {
            assert(dedup_seq.take(n as int) =~= dedup_seq);
        }

        // The stream's own location: count, then the contiguous record array.
        let count = modules.len();
        // The largest count whose 108-byte records and count still fit the
        // 32-bit offset space.
        if count > ((u32::MAX as usize) - 4) / 108 {
            return Err(StreamError::MemoryWriterError(
                crate::mem_writer::MemoryWriterError::BufferTooLarge,
            ));
        }
        let mut encoded: Vec<u8> = Vec::new();
        push_u32_le(&mut encoded, count as u32);
        let mut k: usize = 0;
        while k < count
            invariant
                k <= count,
                count == modules@.len(),
                count <= ((u32::MAX as usize) - 4) / 108,
                encoded@ == le32(count as u32) + records_bytes(modules@.take(k as int)),
            decreases count - k,
        {
            modules[k].write_into(&mut encoded);
            proof {
                lemma_records_bytes_push(modules@.take(k as int), modules@[k as int]);
                assert(modules@.take(k + 1) =~= modules@.take(k as int).push(modules@[k as int]));
            }
            k = k + 1;
        }
        assert(modules@.take(count as int) =~= modules@);
        proof {
            crate::minidump_format::lemma_records_bytes_len(modules@, MD_MODULE_SIZE as int);
        }

        let list_rva = match buffer.write_all(encoded.as_slice()) {
            Ok(rva) => rva,
            Err(e) => {
                return Err(StreamError::MemoryWriterError(e));
            },
        };
        let dirent = MDRawDirectory {
            stream_type: MDStreamType::ModuleListStream.value(),
            location: MDLocationDescriptor { data_size: encoded.len() as u32, rva: list_rva },
        };
        proof {
            assert(buffer.bytes().subrange(
                list_rva as int,
                list_rva + dirent.location.data_size,
            ) =~= le32(count as u32) + records_bytes(modules@));
            reveal(module_list_arrangement);
            assert forall|a: int, b: int| 0 <= a < b < dedup_seq.len() implies (#[trigger]
            dedup_seq[a]).info.load_address <= (#[trigger] dedup_seq[b]).info.load_address by {
                assert(dedup_seq[a].info.load_address < dedup_seq[b].info.load_address);
            }
            assert(module_list_arrangement(images0, dedup_seq, modules@));
        }
        Ok((dirent, Ghost(modules@), Ghost(dedup_seq)))
    }
}

/// Every deduplicated image is one of the originals.
proof fn lemma_dedup_multiset_subset(s: Seq<ImageCapture>, orig: Multiset<ImageCapture>)
    requires
        s.to_multiset() == orig,
    ensures
        forall|k: int|
            0 <= k < spec_dedup_images(s).len() ==> orig.contains(
                #[trigger] spec_dedup_images(s)[k],
            ),
    decreases s.len(),
{
    lemma_dedup_elements(s);
    s.to_multiset_ensures();
    assert forall|k: int| 0 <= k < spec_dedup_images(s).len() implies orig.contains(
        #[trigger] spec_dedup_images(s)[k],
    ) by {
        assert(s.contains(spec_dedup_images(s)[k]));
    }
}

/// Every deduplicated image occurs in the input.
proof fn lemma_dedup_elements(s: Seq<ImageCapture>)
    ensures
        forall|k: int|
            0 <= k < spec_dedup_images(s).len() ==> s.contains(#[trigger] spec_dedup_images(s)[k]),
    decreases s.len(),
{
    if s.len() > 0 {
        lemma_dedup_elements(s.drop_last());
        assert forall|k: int| 0 <= k < spec_dedup_images(s).len() implies s.contains(
            #[trigger] spec_dedup_images(s)[k],
        ) by {
            let rest = spec_dedup_images(s.drop_last());
            if k < rest.len() {
                assert(s.drop_last().contains(rest[k]));
                let w = choose|w: int| 0 <= w < s.drop_last().len() && s.drop_last()[w] == rest[k];
                assert(s[w] == rest[k]);
            } else {
                assert(spec_dedup_images(s)[k] == s.last());
                assert(s[s.len() - 1] == s.last());
            }
        }
    }
}

/// Law: a resolved module's base is its segment's preferred address plus its
/// slide — which is the image's actual load address — never the raw preferred
/// address.
pub proof fn lemma_base_of_image(m: MDRawModule, img: ImageCapture)
    requires
        module_md_ok(m, img),
    ensures
        m.base_of_image == spec_image_scan(img.load_commands@).0->Some_0.0 + (
        img.info.load_address - spec_image_scan(img.load_commands@).0->Some_0.0),
        m.base_of_image == img.info.load_address,
{
}

} // verus!
