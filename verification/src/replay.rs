//! What a list of commands does, step by step: which render pass is open, which textures have
//! contents, and how far the instance buffer is filled.

use crate::commands::{
    BufferSlot, Command, CommandModel, LoadAction, RenderPass, TextureSlot,
};
use crate::packing::INSTANCE_ALIGNMENT;
use vstd::prelude::*;

verus! {

/// The render command encoder between two commands.
pub enum EncoderState {
    Closed,
    Open(RenderPass),
}

/// The state between two commands.
pub struct Replay {
    /// Whether every command so far was allowed where it stood.
    pub valid: bool,
    pub encoder: EncoderState,
    /// Where the bytes written into the instance buffer end.
    pub filled: int,
    /// The place in the instance buffer that is bound and not yet written.
    pub pending: Option<int>,
    /// Whether the target was captured into the backdrop texture.
    pub captured: bool,
    /// Whether paths were rasterized into the intermediate texture.
    pub rasterized: bool,
    /// The first render pass.
    pub first: Option<RenderPass>,
}

/// The state before the first command.
pub open spec fn replay_start() -> Replay {
    Replay {
        valid: true,
        encoder: EncoderState::Closed,
        filled: 0,
        pending: None,
        captured: false,
        rasterized: false,
        first: None,
    }
}

/// Bytes may be put at `offset` of the instance buffer: it is aligned, nothing was written there
/// or behind it, and no other place is waiting for its bytes.
pub open spec fn may_fill(r: Replay, offset: int) -> bool {
    &&& offset % (INSTANCE_ALIGNMENT as int) == 0
    &&& r.filled <= offset
    &&& r.pending is None || r.pending == Some(offset)
}

/// A texture that a frame may draw into: its target, or an intermediate one. What the scene samples
/// is not.
pub open spec fn is_drawn_into(texture: TextureSlot) -> bool {
    match texture {
        TextureSlot::Target | TextureSlot::Backdrop | TextureSlot::PathIntermediate => true,
        TextureSlot::PathMultisample => true,
        TextureSlot::Atlas(_) | TextureSlot::Surface(_) => false,
    }
}

/// A render pass renders to textures that a frame may draw into.
pub open spec fn renders_to_own(pass: RenderPass) -> bool {
    &&& is_drawn_into(pass.color)
    &&& match pass.resolve {
        Some(texture) => is_drawn_into(texture),
        None => true,
    }
}

/// A render pass may be opened: none is open, it renders to textures that a frame may draw into,
/// the first one clears the target, and every later one into the target keeps what is there.
pub open spec fn may_open(r: Replay, pass: RenderPass) -> bool {
    &&& r.encoder is Closed
    &&& renders_to_own(pass)
    &&& if r.first is None {
        pass.color == TextureSlot::Target && pass.load is Clear
    } else {
        pass.color == TextureSlot::Target ==> pass.load == LoadAction::Load
    }
}

/// A texture has contents: one of the renderer's own has them only once the frame drew into it,
/// and what is multisampled is never sampled itself.
pub open spec fn has_contents(r: Replay, texture: TextureSlot) -> bool {
    match texture {
        TextureSlot::Backdrop => r.captured,
        TextureSlot::PathIntermediate => r.rasterized,
        TextureSlot::PathMultisample => false,
        TextureSlot::Target | TextureSlot::Atlas(_) | TextureSlot::Surface(_) => true,
    }
}

/// A texture may be sampled in the open render pass: it has contents, and the pass does not render
/// to it.
pub open spec fn may_sample(r: Replay, texture: TextureSlot) -> bool {
    &&& has_contents(r, texture)
    &&& match r.encoder {
        EncoderState::Closed => false,
        EncoderState::Open(pass) => pass.color != texture && pass.resolve != Some(texture),
    }
}

/// The open render pass renders to a texture, or resolves into it.
pub open spec fn renders_to(r: Replay, texture: TextureSlot) -> bool {
    match r.encoder {
        EncoderState::Closed => false,
        EncoderState::Open(pass) => pass.color == texture || pass.resolve == Some(texture),
    }
}

/// Binding a buffer to a vertex or fragment function.
pub open spec fn replay_bind(r: Replay, buffer: BufferSlot, offset: int) -> Replay {
    match buffer {
        BufferSlot::UnitVertices => Replay { valid: r.valid && r.encoder is Open, ..r },
        BufferSlot::Instances => Replay {
            valid: r.valid && r.encoder is Open && may_fill(r, offset),
            pending: Some(offset),
            ..r
        },
    }
}

/// One command. A render pass is opened only where it may be. Copies and the announcement of the
/// written bytes stand between two render passes. Everything that sets up or makes a draw stands
/// inside a render pass, and a draw stands behind the bytes that it reads. What is bound is
/// forgotten at the end of the pass.
pub open spec fn replay_step(r: Replay, command: CommandModel) -> Replay {
    match command {
        Command::BeginPass(pass) => Replay {
            valid: r.valid && may_open(r, pass),
            encoder: EncoderState::Open(pass),
            first: if r.first is None {
                Some(pass)
            } else {
                r.first
            },
            ..r
        },
        Command::EndEncoding => Replay {
            valid: r.valid && r.encoder is Open,
            encoder: EncoderState::Closed,
            pending: None,
            captured: r.captured || renders_to(r, TextureSlot::Backdrop),
            rasterized: r.rasterized || renders_to(r, TextureSlot::PathIntermediate),
            ..r
        },
        Command::CopyTargetToBackdrop { .. } => Replay {
            valid: r.valid && r.encoder is Closed && r.first is Some,
            captured: true,
            ..r
        },
        Command::SetPipeline(_) => Replay { valid: r.valid && r.encoder is Open, ..r },
        Command::SetVertexBuffer { buffer, offset, .. } => replay_bind(r, buffer, offset as int),
        Command::SetFragmentBuffer { buffer, offset, .. } => replay_bind(r, buffer, offset as int),
        Command::SetVertexBytes { .. } => Replay { valid: r.valid && r.encoder is Open, ..r },
        Command::SetFragmentBytes { .. } => Replay { valid: r.valid && r.encoder is Open, ..r },
        Command::SetFragmentTexture { texture, .. } => Replay {
            valid: r.valid && may_sample(r, texture),
            ..r
        },
        Command::SetFragmentSampler { .. } => Replay { valid: r.valid && r.encoder is Open, ..r },
        Command::WriteInstances { offset, bytes } => Replay {
            valid: r.valid && r.encoder is Open && may_fill(r, offset as int),
            filled: offset + bytes.len(),
            pending: None,
            ..r
        },
        Command::Draw { .. } => Replay {
            valid: r.valid && r.encoder is Open && r.pending is None,
            ..r
        },
        Command::DrawInstanced { .. } => Replay {
            valid: r.valid && r.encoder is Open && r.pending is None,
            ..r
        },
        Command::SyncInstances { length } => Replay {
            valid: r.valid && r.encoder is Closed && r.first is Some && r.filled <= length,
            ..r
        },
    }
}

/// The state after the first `n` of `commands`.
pub open spec fn replay_from(r: Replay, commands: Seq<CommandModel>, n: int) -> Replay
    decreases n,
{
    if n <= 0 {
        r
    } else {
        replay_step(replay_from(r, commands, n - 1), commands[n - 1])
    }
}

/// The state after all of `commands`.
pub open spec fn replay(commands: Seq<CommandModel>) -> Replay {
    replay_from(replay_start(), commands, commands.len() as int)
}

proof fn lemma_replay_prefix(r: Replay, a: Seq<CommandModel>, b: Seq<CommandModel>, n: int)
    requires
        n <= a.len(),
    ensures
        replay_from(r, a + b, n) == replay_from(r, a, n),
    decreases n,
{
    if n > 0 {
        lemma_replay_prefix(r, a, b, n - 1);
        assert((a + b)[n - 1] == a[n - 1]);
    }
}

/// More commands are replayed from where the first ones led to.
pub proof fn lemma_replay_concat(a: Seq<CommandModel>, b: Seq<CommandModel>, n: int)
    requires
        0 <= n <= b.len(),
    ensures
        replay_from(replay_start(), a + b, a.len() + n) == replay_from(replay(a), b, n),
    decreases n,
{
    if n > 0 {
        lemma_replay_concat(a, b, n - 1);
        assert((a + b)[a.len() + n - 1] == b[n - 1]);
    } else {
        lemma_replay_prefix(replay_start(), a, b, a.len() as int);
    }
}

/// A command does not clear the target: if it opens a render pass into it, that pass loads.
pub open spec fn keeps_target(command: CommandModel) -> bool {
    match command {
        Command::BeginPass(pass) => pass.color == TextureSlot::Target ==> pass.load
            == LoadAction::Load,
        _ => true,
    }
}

proof fn lemma_first_pass(commands: Seq<CommandModel>, n: int)
    requires
        0 < n <= commands.len(),
        replay_from(replay_start(), commands, n).valid,
    ensures
        replay_from(replay_start(), commands, n).first matches Some(pass) && {
            &&& commands[0] == Command::<Seq<u8>>::BeginPass(pass)
            &&& pass.color == TextureSlot::Target
            &&& pass.load is Clear
        },
        forall|i: int| 0 < i < n ==> keeps_target(#[trigger] commands[i]),
    decreases n,
{
    assert(replay_from(replay_start(), commands, 0) == replay_start());
    if n > 1 {
        lemma_first_pass(commands, n - 1);
    }
}

/// A valid list of commands clears the target first and never again: its first command opens a
/// render pass that clears the target, and every later one into the target loads.
pub proof fn targets_are_cleared_first_and_once(commands: Seq<CommandModel>)
    requires
        replay(commands).valid,
        commands.len() > 0,
    ensures
        replay(commands).first matches Some(pass) && {
            &&& commands[0] == Command::<Seq<u8>>::BeginPass(pass)
            &&& pass.color == TextureSlot::Target
            &&& pass.load is Clear
        },
        forall|i: int| 0 < i < commands.len() ==> keeps_target(#[trigger] commands[i]),
{
    lemma_first_pass(commands, commands.len() as int);
}

/// A valid list of commands draws into its target and the intermediate textures only: the sprite
/// atlas and the surfaces that it samples stay as they are.
pub proof fn sampled_textures_stay(commands: Seq<CommandModel>)
    requires
        replay(commands).valid,
    ensures
        forall|i: int|
            0 <= i < commands.len() ==> match #[trigger] commands[i] {
                Command::BeginPass(pass) => renders_to_own(pass),
                _ => true,
            },
{
    assert forall|i: int| 0 <= i < commands.len() implies match #[trigger] commands[i] {
        Command::BeginPass(pass) => renders_to_own(pass),
        _ => true,
    } by {
        lemma_valid_prefix(commands, i + 1, commands.len() as int);
    }
}

/// The end of the bytes that a command writes into the instance buffer.
pub open spec fn write_end(command: CommandModel) -> int {
    match command {
        Command::WriteInstances { offset, bytes } => offset + bytes.len(),
        _ => 0,
    }
}

/// Command `i` writes into the instance buffer, from an aligned place on, and every later write
/// starts behind it.
pub open spec fn write_is_apart(commands: Seq<CommandModel>, i: int) -> bool {
    match commands[i] {
        Command::WriteInstances { offset, bytes } => {
            &&& offset % INSTANCE_ALIGNMENT == 0
            &&& forall|j: int|
                i < j < commands.len() ==> match #[trigger] commands[j] {
                    Command::WriteInstances { offset: later, .. } => offset + bytes.len() <= later,
                    _ => true,
                }
        },
        _ => true,
    }
}

proof fn lemma_filled_bounds_writes(commands: Seq<CommandModel>, n: int)
    requires
        0 <= n <= commands.len(),
        replay_from(replay_start(), commands, n).valid,
    ensures
        replay_from(replay_start(), commands, n).filled >= 0,
        forall|i: int|
            0 <= i < n ==> write_end(#[trigger] commands[i]) <= replay_from(
                replay_start(),
                commands,
                n,
            ).filled,
    decreases n,
{
    if n > 0 {
        lemma_filled_bounds_writes(commands, n - 1);
    }
}

proof fn lemma_valid_prefix(commands: Seq<CommandModel>, k: int, n: int)
    requires
        0 <= k <= n <= commands.len(),
        replay_from(replay_start(), commands, n).valid,
    ensures
        replay_from(replay_start(), commands, k).valid,
    decreases n - k,
{
    if k < n {
        lemma_valid_prefix(commands, k, n - 1);
    }
}

/// The writes of a valid list of commands do not overlap, come in the order of their places, and
/// end where the instance buffer is filled up to.
pub proof fn writes_are_apart(commands: Seq<CommandModel>)
    requires
        replay(commands).valid,
    ensures
        forall|i: int| 0 <= i < commands.len() ==> write_is_apart(commands, i),
        forall|i: int|
            0 <= i < commands.len() ==> write_end(#[trigger] commands[i]) <= replay(
                commands,
            ).filled,
{
    let n = commands.len() as int;
    lemma_filled_bounds_writes(commands, n);
    assert forall|i: int| 0 <= i < n implies write_is_apart(commands, i) by {
        lemma_valid_prefix(commands, i + 1, n);
        assert forall|j: int| i < j < n implies match #[trigger] commands[j] {
            Command::WriteInstances { offset: later, .. } => write_end(commands[i]) <= later,
            _ => true,
        } by {
            lemma_valid_prefix(commands, j + 1, n);
            lemma_filled_bounds_writes(commands, j);
        }
    }
}

/// The bytes of the instance buffer after the first `n` commands, by their place.
pub open spec fn instance_bytes(commands: Seq<CommandModel>, n: int) -> Map<int, u8>
    decreases n,
{
    if n <= 0 {
        Map::empty()
    } else {
        let before = instance_bytes(commands, n - 1);
        match commands[n - 1] {
            Command::WriteInstances { offset, bytes } => before.union_prefer_right(
                Map::new(
                    |at: int| offset <= at < offset + bytes.len(),
                    |at: int| bytes[at - offset],
                ),
            ),
            _ => before,
        }
    }
}

/// The instance buffer holds the bytes of a command from its place on.
pub open spec fn holds_write(memory: Map<int, u8>, command: CommandModel) -> bool {
    match command {
        Command::WriteInstances { offset, bytes } => forall|at: int|
            offset <= at < offset + bytes.len() ==> {
                &&& #[trigger] memory.contains_key(at)
                &&& memory[at] == bytes[at - offset]
            },
        _ => true,
    }
}

proof fn lemma_write_survives(commands: Seq<CommandModel>, i: int, n: int)
    requires
        0 <= i < n <= commands.len(),
        write_is_apart(commands, i),
    ensures
        holds_write(instance_bytes(commands, n), commands[i]),
    decreases n - i,
{
    if i + 1 < n {
        lemma_write_survives(commands, i, n - 1);
        assert(match commands[n - 1] {
            Command::WriteInstances { offset: later, .. } => match commands[i] {
                Command::WriteInstances { offset, bytes } => offset + bytes.len() <= later,
                _ => true,
            },
            _ => true,
        });
    }
}

/// When all of a valid list of commands was encoded, the instance buffer still holds the bytes of
/// every one of its writes. The GPU reads them only then.
pub proof fn writes_survive(commands: Seq<CommandModel>)
    requires
        replay(commands).valid,
    ensures
        forall|i: int|
            0 <= i < commands.len() ==> holds_write(
                instance_bytes(commands, commands.len() as int),
                #[trigger] commands[i],
            ),
{
    writes_are_apart(commands);
    assert forall|i: int| 0 <= i < commands.len() implies holds_write(
        instance_bytes(commands, commands.len() as int),
        #[trigger] commands[i],
    ) by {
        assert(write_is_apart(commands, i));
        lemma_write_survives(commands, i, commands.len() as int);
    }
}

} // verus!
