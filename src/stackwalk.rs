//! The recovery strategies and the walk that chains them.
use crate::context::{MinidumpContext, MinidumpMemory};
use crate::frame::{bare_frame, Declined, FrameView, StackFrame, Trust};
use crate::modules::MinidumpModuleList;
use crate::pointer::{pread_ptr, ptr_width, read_ptr_spec};
use vstd::prelude::*;

verus! {

/// Slots scanned above a frame derived by a strategy.
pub const DEFAULT_SCAN_SLOTS: u64 = 40;

/// Slots scanned above the innermost frame, which comes straight from the registers.
pub const CONTEXT_SCAN_SLOTS: u64 = DEFAULT_SCAN_SLOTS * 4;

/// The frame-pointer strategy on a frame whose base is `cur.start_of_frame`.
pub open spec fn frame_pointer_spec(cur: FrameView, ctx: MinidumpContext, mem: MinidumpMemory) -> Result<FrameView, Declined> {
    let w = ptr_width(ctx.is_64bit) as int;
    let off = cur.start_of_frame - mem.base_address;
    match (read_ptr_spec(mem.bytes@, off, ctx.is_64bit), read_ptr_spec(mem.bytes@, off + w, ctx.is_64bit)) {
        (Some(rbp), Some(rip)) => {
            if rbp < cur.start_of_frame || rbp > mem.top() || rbp + 2 * w > u64::MAX {
                Err(Declined::Unvalidated)
            } else if rbp % (w as u64) != 0 {
                Err(Declined::Misaligned)
            } else {
                Ok(bare_frame(rbp, (rbp + 2 * w) as u64, rip, Trust::FramePointer))
            }
        },
        _ => Err(Declined::OutOfBounds),
    }
}

/// The number of slots scanned above a frame of the given trust.
pub open spec fn scan_window(trust: Trust) -> nat {
    if trust == Trust::Context {
        CONTEXT_SCAN_SLOTS as nat
    } else {
        DEFAULT_SCAN_SLOTS as nat
    }
}

/// The caller frame implied by a plausible return address `rip` found at address `a`.
pub open spec fn scan_hit_frame(cur: FrameView, ctx: MinidumpContext, mem: MinidumpMemory, a: int, rip: u64) -> Result<FrameView, Declined> {
    let w = ptr_width(ctx.is_64bit) as int;
    let rsp = (a + w) as u64;
    let top = mem.top() as u64;
    if cur.start_of_frame == a - w {
        // Standard prologue: the caller's base was saved just below the return address.
        match read_ptr_spec(mem.bytes@, a - w - mem.base_address, ctx.is_64bit) {
            Some(saved) => Ok(bare_frame(if saved > a { saved } else { top }, rsp, rip, Trust::Scan)),
            None => Err(Declined::OutOfBounds),
        }
    } else if cur.start_of_frame >= a + w {
        // The callee left the frame-pointer register as the caller had it.
        Ok(bare_frame(cur.start_of_frame, rsp, rip, Trust::Scan))
    } else {
        // The base is unknown; the top of the captured region stands in for it.
        Ok(bare_frame(top, rsp, rip, Trust::Scan))
    }
}

/// The scan strategy, from slot `i` of the window on.
pub open spec fn scan_from(cur: FrameView, ctx: MinidumpContext, mem: MinidumpMemory, mods: MinidumpModuleList, i: nat) -> Result<FrameView, Declined>
    decreases scan_window(cur.trust) - i,
{
    if i >= scan_window(cur.trust) {
        Err(Declined::Exhausted)
    } else {
        let a = cur.end_of_frame + i * ptr_width(ctx.is_64bit);
        match read_ptr_spec(mem.bytes@, a - mem.base_address, ctx.is_64bit) {
            None => Err(Declined::OutOfBounds),
            Some(rip) => if mods.any_covers(rip) {
                scan_hit_frame(cur, ctx, mem, a, rip)
            } else {
                scan_from(cur, ctx, mem, mods, i + 1)
            },
        }
    }
}

/// The scan strategy on the frame `cur`.
pub open spec fn scan_spec(cur: FrameView, ctx: MinidumpContext, mem: MinidumpMemory, mods: MinidumpModuleList) -> Result<FrameView, Declined> {
    scan_from(cur, ctx, mem, mods, 0)
}

/// A frame found by scanning from slot `i` on ends in a slot of the window at or
/// after slot `i`, within the captured region, and keeps or raises the frame base.
pub proof fn lemma_scan_from_bounds(cur: FrameView, ctx: MinidumpContext, mem: MinidumpMemory, mods: MinidumpModuleList, i: nat)
    requires
        mem.wf(),
    ensures
        scan_from(cur, ctx, mem, mods, i) matches Ok(f) ==> {
            &&& f.end_of_frame >= cur.end_of_frame + (i + 1) * ptr_width(ctx.is_64bit)
            &&& f.end_of_frame <= cur.end_of_frame + scan_window(cur.trust) * ptr_width(ctx.is_64bit)
            &&& f.end_of_frame <= mem.top()
            &&& f.start_of_frame >= cur.start_of_frame
            &&& f.trust == Trust::Scan
            &&& f == f.bare()
        },
    decreases scan_window(cur.trust) - i,
{
    let n = scan_window(cur.trust);
    let w = ptr_width(ctx.is_64bit);
    if i < n {
        let a = cur.end_of_frame + i * w;
        assert((i + 1) * w == i * w + w) by (nonlinear_arith);
        assert((i + 1) * w <= n * w) by (nonlinear_arith)
            requires
                i + 1 <= n,
        ;
        if let Some(rip) = read_ptr_spec(mem.bytes@, a - mem.base_address, ctx.is_64bit) {
            if !mods.any_covers(rip) {
                lemma_scan_from_bounds(cur, ctx, mem, mods, i + 1);
                assert((i + 2) * w == (i + 1) * w + w) by (nonlinear_arith);
            }
        }
    }
}

/// The innermost frame, read from the registers.
pub open spec fn seed_frame(ctx: MinidumpContext) -> FrameView {
    bare_frame(ctx.frame_pointer, ctx.stack_pointer, ctx.instruction_pointer, Trust::Context)
}

/// The frame the strategies derive from `cur`, tried in order: call-frame
/// information (which never yields one), the frame pointer, then scanning.
pub open spec fn next_frame(cur: FrameView, ctx: MinidumpContext, mem: MinidumpMemory, mods: MinidumpModuleList) -> Option<FrameView> {
    match frame_pointer_spec(cur, ctx, mem) {
        Ok(f) => Some(f),
        Err(_) => match scan_spec(cur, ctx, mem, mods) {
            Ok(f) => Some(f),
            Err(_) => None,
        },
    }
}

/// The walk ends at `cur`: no strategy derives a frame from it, or the one derived
/// is `cur` itself, which would repeat forever.
pub open spec fn walk_stops(cur: FrameView, ctx: MinidumpContext, mem: MinidumpMemory, mods: MinidumpModuleList) -> bool {
    match next_frame(cur, ctx, mem, mods) {
        Some(f) => f == cur,
        None => true,
    }
}

/// `frames` starts with the seed frame and each further frame is the one derived
/// from its predecessor, which it differs from (module names aside).
pub open spec fn walk_steps(frames: Seq<StackFrame>, ctx: MinidumpContext, mem: MinidumpMemory, mods: MinidumpModuleList) -> bool {
    &&& frames.len() >= 1
    &&& frames[0]@.bare() == seed_frame(ctx)
    &&& forall|k: int|
        #![trigger frames[k + 1]]
        0 <= k < frames.len() - 1 ==> {
            &&& next_frame(frames[k]@.bare(), ctx, mem, mods) == Some(frames[k + 1]@.bare())
            &&& frames[k + 1]@.bare() != frames[k]@.bare()
        }
}

/// `frames` is the complete walk: its steps, and the walk ends at its last frame.
pub open spec fn is_walk(frames: Seq<StackFrame>, ctx: MinidumpContext, mem: MinidumpMemory, mods: MinidumpModuleList) -> bool {
    &&& walk_steps(frames, ctx, mem, mods)
    &&& walk_stops(frames.last()@.bare(), ctx, mem, mods)
}

/// The frame-pointer strategy gives `f` back when applied to `f` itself.
pub open spec fn settled(f: FrameView, ctx: MinidumpContext, mem: MinidumpMemory) -> bool {
    frame_pointer_spec(f, ctx, mem) == Ok::<FrameView, Declined>(f)
}

/// Each step of a walk keeps or raises the frame base, and where it keeps it, the
/// step either reaches a frame the frame-pointer strategy repeats, or raises the
/// frame's end without leaving or entering such a frame.
pub proof fn lemma_next_frame_progress(cur: FrameView, ctx: MinidumpContext, mem: MinidumpMemory, mods: MinidumpModuleList)
    requires
        mem.wf(),
        cur.module_name == Seq::<char>::empty(),
        next_frame(cur, ctx, mem, mods) is Some,
        next_frame(cur, ctx, mem, mods).unwrap() != cur,
    ensures
        ({
            let f = next_frame(cur, ctx, mem, mods).unwrap();
            &&& f == f.bare()
            &&& f.start_of_frame >= cur.start_of_frame
            &&& f.start_of_frame == cur.start_of_frame ==> {
                ||| settled(f, ctx, mem) && !settled(cur, ctx, mem)
                ||| settled(f, ctx, mem) == settled(cur, ctx, mem) && f.end_of_frame > cur.end_of_frame
            }
        }),
{
    let f = next_frame(cur, ctx, mem, mods).unwrap();
    lemma_scan_from_bounds(cur, ctx, mem, mods, 0);
}

/// The frame bases of a walk never decrease from one frame to the next.
pub proof fn lemma_walk_bases_nondecreasing(frames: Seq<StackFrame>, ctx: MinidumpContext, mem: MinidumpMemory, mods: MinidumpModuleList)
    requires
        mem.wf(),
        walk_steps(frames, ctx, mem, mods),
    ensures
        forall|k: int| 0 <= k < frames.len() - 1 ==> frames[k].start_of_frame <= #[trigger] frames[k + 1].start_of_frame,
{
    assert forall|k: int| 0 <= k < frames.len() - 1 implies frames[k].start_of_frame <= #[trigger] frames[k + 1].start_of_frame by {
        let cur = frames[k]@.bare();
        lemma_next_frame_progress(cur, ctx, mem, mods);
    }
}

/// The address of slot `i` of the scan above `cur`.
pub open spec fn scan_slot(cur: FrameView, ctx: MinidumpContext, i: int) -> int {
    cur.end_of_frame + i * ptr_width(ctx.is_64bit)
}

/// A scan from slot `i` on is exhausted only when every remaining slot of the
/// window lies in the captured region and holds no address inside a module.
pub proof fn lemma_scan_exhausted(cur: FrameView, ctx: MinidumpContext, mem: MinidumpMemory, mods: MinidumpModuleList, i: nat)
    requires
        scan_from(cur, ctx, mem, mods, i) == Err::<FrameView, Declined>(Declined::Exhausted),
    ensures
        forall|j: int|
            #![trigger scan_slot(cur, ctx, j)]
            i <= j < scan_window(cur.trust) ==> {
                &&& read_ptr_spec(mem.bytes@, scan_slot(cur, ctx, j) - mem.base_address, ctx.is_64bit) matches Some(v)
                &&& !mods.any_covers(v)
            },
    decreases scan_window(cur.trust) - i,
{
    if i < scan_window(cur.trust) {
        lemma_scan_exhausted(cur, ctx, mem, mods, i + 1);
        assert(scan_slot(cur, ctx, i as int) == cur.end_of_frame + i * ptr_width(ctx.is_64bit));
    }
}

/// `r` is the executable outcome whose value is `s`.
pub open spec fn agrees(r: Result<StackFrame, Declined>, s: Result<FrameView, Declined>) -> bool {
    match r {
        Ok(f) => s == Ok::<FrameView, Declined>(f@),
        Err(e) => s == Err::<FrameView, Declined>(e),
    }
}

/// Recovery from call-frame information, which this walker does not read: it always declines.
pub fn get_next_frame_via_cfi(
    _current_frame: &StackFrame,
    _context: &MinidumpContext,
    _stack: &MinidumpMemory,
    _modules: &MinidumpModuleList,
) -> (r: Result<StackFrame, Declined>)
    ensures
        r matches Err(e) && e == Declined::Unsupported,
{
    Err(Declined::Unsupported)
}

/// Recovery through the saved frame pointer and return address stored at the
/// current frame's base.
pub fn get_next_frame_via_frame_pointer(
    current_frame: &StackFrame,
    context: &MinidumpContext,
    stack: &MinidumpMemory,
    _modules: &MinidumpModuleList,
) -> (r: Result<StackFrame, Declined>)
    requires
        stack.wf(),
    ensures
        agrees(r, frame_pointer_spec(current_frame@, *context, *stack)),
        r matches Ok(f) ==> {
            &&& f.start_of_frame >= current_frame.start_of_frame
            &&& f.start_of_frame <= stack.top()
            &&& f.start_of_frame % (ptr_width(context.is_64bit) as u64) == 0
        },
{
    let start_of_frame = current_frame.start_of_frame;
    let stack_mem_base = stack.base_address;
    let stack_base_frame = stack_mem_base + stack.size;
    let is_64bit = context.is_64bit();
    let ptr_width: u64 = if is_64bit { 8 } else { 4 };

    if start_of_frame < stack_mem_base {
        return Err(Declined::OutOfBounds);
    }
    let frame_offset = start_of_frame - stack_mem_base;
    let rbp = match pread_ptr(stack.bytes.as_slice(), frame_offset, is_64bit) {
        Ok(v) => v,
        Err(e) => return Err(e),
    };
    let rip = match pread_ptr(stack.bytes.as_slice(), frame_offset + ptr_width, is_64bit) {
        Ok(v) => v,
        Err(e) => return Err(e),
    };

    // The new base must not move back towards the current frame, must stay
    // within the captured region, and must leave room for the frame itself.
    if rbp < start_of_frame || rbp > stack_base_frame || rbp > u64::MAX - 2 * ptr_width {
        return Err(Declined::Unvalidated);
    }
    if rbp % ptr_width != 0 {
        return Err(Declined::Misaligned);
    }
    Ok(StackFrame::new(rbp, rbp + 2 * ptr_width, rip, Trust::FramePointer))
}

/// Whether `instruction` lies inside some loaded module.
pub fn instruction_is_valid(instruction: u64, modules: &MinidumpModuleList) -> (r: bool)
    ensures
        r == modules.any_covers(instruction),
{
    match modules.module_at_address(instruction) {
        Some(_module) => true,
        None => false,
    }
}

/// Recovery by scanning the slots above the current frame's end for a value that
/// points into a loaded module, taken as the return address its caller pushed.
pub fn get_next_frame_via_scan(
    current_frame: &StackFrame,
    context: &MinidumpContext,
    stack: &MinidumpMemory,
    modules: &MinidumpModuleList,
) -> (r: Result<StackFrame, Declined>)
    requires
        stack.wf(),
    ensures
        agrees(r, scan_spec(current_frame@, *context, *stack, *modules)),
        r matches Ok(f) ==> {
            &&& f.end_of_frame >= current_frame.end_of_frame + ptr_width(context.is_64bit)
            &&& f.end_of_frame <= current_frame.end_of_frame + scan_window(current_frame.trust) * ptr_width(context.is_64bit)
            &&& f.end_of_frame <= stack.top()
            &&& f.start_of_frame >= current_frame.start_of_frame
        },
        r matches Err(e) && e == Declined::Exhausted ==> forall|j: int|
            #![trigger scan_slot(current_frame@, *context, j)]
            0 <= j < scan_window(current_frame.trust) ==> {
                &&& read_ptr_spec(stack.bytes@, scan_slot(current_frame@, *context, j) - stack.base_address, context.is_64bit) matches Some(v)
                &&& !modules.any_covers(v)
            },
{
    proof {
        lemma_scan_from_bounds(current_frame@, *context, *stack, *modules, 0);
        if scan_spec(current_frame@, *context, *stack, *modules) == Err::<FrameView, Declined>(Declined::Exhausted) {
            lemma_scan_exhausted(current_frame@, *context, *stack, *modules, 0);
        }
    }
    let scan_range: u64 = if current_frame.trust == Trust::Context {
        CONTEXT_SCAN_SLOTS
    } else {
        DEFAULT_SCAN_SLOTS
    };
    let is_64bit = context.is_64bit();
    let width: u64 = if is_64bit { 8 } else { 4 };
    let stack_mem_base = stack.base_address;
    let stack_base_frame = stack_mem_base + stack.size;
    let bytes = stack.bytes.as_slice();
    let start = current_frame.end_of_frame;
    let ghost cur = current_frame@;

    if start < stack_mem_base {
        return Err(Declined::OutOfBounds);
    }
    let mut offset_of_rip: u64 = start - stack_mem_base;
    let mut i: u64 = 0;
    while i < scan_range
        invariant
            stack.wf(),
            bytes@ == stack.bytes@,
            width == ptr_width(context.is_64bit),
            is_64bit == context.is_64bit,
            scan_range == scan_window(cur.trust),
            stack_base_frame == stack.top(),
            cur == current_frame@,
            start == cur.end_of_frame,
            stack_mem_base == stack.base_address,
            start >= stack_mem_base,
            i <= scan_range,
            offset_of_rip == start - stack_mem_base + i * width,
            i > 0 ==> offset_of_rip <= bytes@.len(),
            scan_from(cur, *context, *stack, *modules, i as nat) == scan_spec(cur, *context, *stack, *modules),
        decreases scan_range - i,
    {
        let rip = match pread_ptr(bytes, offset_of_rip, is_64bit) {
            Ok(v) => v,
            Err(e) => return Err(e),
        };
        if instruction_is_valid(rip, modules) {
            // rip was pushed by CALL, so the caller's stack pointer is just past it.
            let address_of_rip = stack_mem_base + offset_of_rip;
            let rsp = address_of_rip + width;
            let mut rbp = stack_base_frame;
            if address_of_rip >= width && current_frame.start_of_frame == address_of_rip - width {
                if offset_of_rip < width {
                    return Err(Declined::OutOfBounds);
                }
                let saved = match pread_ptr(bytes, offset_of_rip - width, is_64bit) {
                    Ok(v) => v,
                    Err(e) => return Err(e),
                };
                if saved > address_of_rip {
                    rbp = saved;
                }
            } else if current_frame.start_of_frame >= rsp {
                rbp = current_frame.start_of_frame;
            }
            return Ok(StackFrame::new(rbp, rsp, rip, Trust::Scan));
        }
        offset_of_rip = offset_of_rip + width;
        i = i + 1;
        proof {
            assert(offset_of_rip == start - stack_mem_base + i * width) by (nonlinear_arith)
                requires
                    offset_of_rip == start - stack_mem_base + (i - 1) * width + width;
        }
    }
    Err(Declined::Exhausted)
}

fn same_frame(a: &StackFrame, b: &StackFrame) -> (r: bool)
    ensures
        r == (a@.bare() == b@.bare()),
{
    a.start_of_frame == b.start_of_frame && a.end_of_frame == b.end_of_frame && a.instruction == b.instruction
        && a.trust == b.trust
}

/// Walks the stack from the registers in `context`: each next frame comes from the
/// first strategy that yields one (call-frame information, the frame pointer, then
/// scanning), until none does or the one derived repeats the last frame. Each frame
/// is then named after the module that covers its instruction.
pub fn walkies(
    context: &MinidumpContext,
    stack_memory: &MinidumpMemory,
    modules: &MinidumpModuleList,
) -> (r: Vec<StackFrame>)
    requires
        stack_memory.wf(),
    ensures
        is_walk(r@, *context, *stack_memory, *modules),
        forall|k: int| 0 <= k < r@.len() ==> #[trigger] r@[k].module_name@ == modules.name_at(r@[k].instruction),
        forall|k: int| 0 <= k < r@.len() - 1 ==> r@[k].start_of_frame <= #[trigger] r@[k + 1].start_of_frame,
{
    let mut stack: Vec<StackFrame> = Vec::new();
    stack.push(
        StackFrame::new(
            context.get_frame_pointer(),
            context.get_stack_pointer(),
            context.get_instruction_pointer(),
            Trust::Context,
        ),
    );

    loop
        invariant
            stack_memory.wf(),
            walk_steps(stack@, *context, *stack_memory, *modules),
            forall|k: int| 0 <= k < stack@.len() ==> #[trigger] stack@[k].module_name@ == Seq::<char>::empty(),
        ensures
            walk_steps(stack@, *context, *stack_memory, *modules),
            walk_stops(stack@.last()@.bare(), *context, *stack_memory, *modules),
            forall|k: int| 0 <= k < stack@.len() ==> #[trigger] stack@[k].module_name@ == Seq::<char>::empty(),
        decreases
            u64::MAX - stack@.last().start_of_frame,
            if settled(stack@.last()@.bare(), *context, *stack_memory) { 0int } else { 1int },
            u64::MAX - stack@.last().end_of_frame,
    {
        let n = stack.len();
        let current_frame = &stack[n - 1];
        // Each strategy is less reliable than the one before it.
        let next = match get_next_frame_via_cfi(current_frame, context, stack_memory, modules) {
            Ok(frame) => Ok(frame),
            Err(_) => match get_next_frame_via_frame_pointer(current_frame, context, stack_memory, modules) {
                Ok(frame) => Ok(frame),
                Err(_) => get_next_frame_via_scan(current_frame, context, stack_memory, modules),
            },
        };
        match next {
            Ok(frame) => {
                if same_frame(&frame, current_frame) {
                    break;
                }
                proof {
                    lemma_next_frame_progress(current_frame@.bare(), *context, *stack_memory, *modules);
                }
                stack.push(frame);
            },
            Err(_) => break,
        }
    }

    let mut named: Vec<StackFrame> = Vec::new();
    let mut k: usize = 0;
    while k < stack.len()
        invariant
            k <= stack@.len(),
            named@.len() == k,
            forall|j: int| 0 <= j < k ==> #[trigger] named@[j]@.bare() == stack@[j]@.bare(),
            forall|j: int| 0 <= j < k ==> #[trigger] named@[j].module_name@ == modules.name_at(named@[j].instruction),
        decreases stack@.len() - k,
    {
        let frame = &stack[k];
        let module_name = match modules.module_at_address(frame.instruction) {
            Some(module) => module.code_file().to_string(),
            None => String::new(),
        };
        named.push(
            StackFrame {
                start_of_frame: frame.start_of_frame,
                end_of_frame: frame.end_of_frame,
                instruction: frame.instruction,
                trust: frame.trust,
                module_name,
            },
        );
        k += 1;
    }
    proof {
        lemma_walk_bases_nondecreasing(stack@, *context, *stack_memory, *modules);
    }
    named
}

} // verus!
