//! Sprites and their frame animations.
use std::sync::Arc;
use vstd::prelude::*;
use crate::scalar::Scalar;
use crate::text::to_ascii_lower;
use crate::text_map::same_text;

verus! {

#[derive(Clone, Copy, Debug, PartialEq, Eq, Structural)]
pub enum SpriteAnimationLoopMode {
    Loop,
    OnceHold,
    OnceStop,
    PingPong,
}

impl SpriteAnimationLoopMode {
    pub open spec fn named(value: Seq<char>) -> Self {
        let name = crate::text::ascii_lower(value);
        if name == "once_hold"@ || name == "oncehold"@ {
            SpriteAnimationLoopMode::OnceHold
        } else if name == "once_stop"@ || name == "oncestop"@ || name == "once"@ {
            SpriteAnimationLoopMode::OnceStop
        } else if name == "pingpong"@ || name == "ping_pong"@ {
            SpriteAnimationLoopMode::PingPong
        } else {
            SpriteAnimationLoopMode::Loop
        }
    }

    /// The mode of a name, in whatever case its ASCII letters are; an unknown name loops.
    pub fn from_str(value: &str) -> (r: Self)
        ensures
            r == Self::named(value@),
    {
        let name = to_ascii_lower(value);
        let name = name.as_str();
        if same_text(name, "once_hold") || same_text(name, "oncehold") {
            SpriteAnimationLoopMode::OnceHold
        } else if same_text(name, "once_stop") || same_text(name, "oncestop") || same_text(
            name,
            "once",
        ) {
            SpriteAnimationLoopMode::OnceStop
        } else if same_text(name, "pingpong") || same_text(name, "ping_pong") {
            SpriteAnimationLoopMode::PingPong
        } else {
            SpriteAnimationLoopMode::Loop
        }
    }

    pub open spec fn repeats(self) -> bool {
        self is Loop || self is PingPong
    }

    pub fn looped(self) -> (r: bool)
        ensures
            r == self.repeats(),
    {
        matches!(self, SpriteAnimationLoopMode::Loop | SpriteAnimationLoopMode::PingPong)
    }

    pub open spec fn name(self) -> Seq<char> {
        match self {
            SpriteAnimationLoopMode::Loop => "loop"@,
            SpriteAnimationLoopMode::OnceHold => "once_hold"@,
            SpriteAnimationLoopMode::OnceStop => "once_stop"@,
            SpriteAnimationLoopMode::PingPong => "pingpong"@,
        }
    }

    pub fn as_str(self) -> (r: &'static str)
        ensures
            r@ == self.name(),
    {
        match self {
            SpriteAnimationLoopMode::Loop => "loop",
            SpriteAnimationLoopMode::OnceHold => "once_hold",
            SpriteAnimationLoopMode::OnceStop => "once_stop",
            SpriteAnimationLoopMode::PingPong => "pingpong",
        }
    }
}

/// A mode is read back from its name.
pub proof fn law_loop_mode_round_trip(mode: SpriteAnimationLoopMode)
    ensures
        SpriteAnimationLoopMode::named(mode.name()) == mode,
{
    reveal_strlit("loop");
    reveal_strlit("once_hold");
    reveal_strlit("once_stop");
    reveal_strlit("pingpong");
    reveal_strlit("oncehold");
    reveal_strlit("oncestop");
    reveal_strlit("once");
    reveal_strlit("ping_pong");
    assert(crate::text::ascii_lower(mode.name()) =~= mode.name());
    assert("loop"@.len() == 4 && "once"@.len() == 4 && "loop"@[0] != "once"@[0]);
    assert("once_hold"@.len() == 9 && "once_stop"@.len() == 9 && "ping_pong"@.len() == 9);
    assert("once_hold"@[5] != "once_stop"@[5]);
    assert("pingpong"@.len() == 8 && "oncehold"@.len() == 8 && "oncestop"@.len() == 8);
    assert("pingpong"@[0] != "oncehold"@[0] && "pingpong"@[0] != "oncestop"@[0]);
}

/// One frame of a sprite animation.
pub struct SpriteAnimationFrame<S> {
    pub name: Arc<String>,
    pub region: Arc<String>,
    pub region_id: u16,
    pub duration: S,
    pub uv: [S; 4],
    pub events: Arc<Vec<Arc<String>>>,
}

/// What of a frame is written to a sprite every time it is shown.
#[derive(Clone, Copy)]
pub struct SpriteFrameHotData<S> {
    pub region_id: u16,
    pub uv: [S; 4],
}

/// The region id of a sprite that no frame was applied to yet.
pub const UNINITIALIZED_REGION: u16 = 65535;

pub struct Sprite<S> {
    pub atlas_key: Arc<String>,
    pub region: Arc<String>,
    pub region_id: u16,
    pub uv: [S; 4],
}

impl<S: Scalar> Sprite<S> {
    pub fn uninitialized(atlas_key: Arc<String>, region: Arc<String>) -> (r: Self)
        ensures
            r.atlas_key == atlas_key,
            r.region == region,
            r.region_id == UNINITIALIZED_REGION,
            r.uv@ == seq![S::zero_spec(), S::zero_spec(), S::zero_spec(), S::zero_spec()],
    {
        let zero = S::zero();
        Sprite { atlas_key, region, region_id: UNINITIALIZED_REGION, uv: [zero, zero, zero, zero] }
    }

    pub fn is_initialized(&self) -> (r: bool)
        ensures
            r == (self.region_id != UNINITIALIZED_REGION),
    {
        self.region_id != UNINITIALIZED_REGION
    }

    /// Shows a frame; the name of the region follows only the first time.
    pub fn apply_frame(&mut self, frame: &SpriteAnimationFrame<S>)
        ensures
            *final(self) == (Sprite {
                region: if old(self).region_id == UNINITIALIZED_REGION {
                    frame.region
                } else {
                    old(self).region
                },
                region_id: frame.region_id,
                uv: frame.uv,
                ..*old(self)
            }),
    {
        if self.region_id == UNINITIALIZED_REGION {
            self.region = frame.region.clone();
        }
        self.region_id = frame.region_id;
        self.uv = frame.uv;
    }
}

/// What an animation wants its sprite to show next.
pub struct SpriteFrameState<S> {
    pub region_id: u16,
    pub uv: [S; 4],
    pub pending_region: Option<Arc<String>>,
    pub region_initialized: bool,
    pub queued_for_apply: bool,
}

impl<S: Scalar> SpriteFrameState<S> {
    pub fn new_uninitialized() -> (r: Self)
        ensures
            r.region_id == UNINITIALIZED_REGION,
            r.uv@ == seq![S::zero_spec(), S::zero_spec(), S::zero_spec(), S::zero_spec()],
            r.pending_region is None,
            !r.region_initialized,
            !r.queued_for_apply,
    {
        let zero = S::zero();
        SpriteFrameState {
            region_id: UNINITIALIZED_REGION,
            uv: [zero, zero, zero, zero],
            pending_region: None,
            region_initialized: false,
            queued_for_apply: false,
        }
    }

    pub fn from_sprite(sprite: &Sprite<S>) -> (r: Self)
        ensures
            r == (SpriteFrameState {
                region_id: sprite.region_id,
                uv: sprite.uv,
                pending_region: None,
                region_initialized: sprite.region_id != UNINITIALIZED_REGION,
                queued_for_apply: false,
            }),
    {
        SpriteFrameState {
            region_id: sprite.region_id,
            uv: sprite.uv,
            pending_region: None,
            region_initialized: sprite.is_initialized(),
            queued_for_apply: false,
        }
    }

    pub open spec fn showing(self, frame: SpriteAnimationFrame<S>) -> Self {
        SpriteFrameState {
            region_id: frame.region_id,
            uv: frame.uv,
            pending_region: Some(frame.region),
            ..self
        }
    }

    pub fn update_from_frame(&mut self, frame: &SpriteAnimationFrame<S>)
        ensures
            *final(self) == old(self).showing(*frame),
    {
        self.region_id = frame.region_id;
        self.uv = frame.uv;
        self.pending_region = Some(frame.region.clone());
    }

    pub open spec fn showing_hot(self, frame: SpriteFrameHotData<S>, region: Option<Arc<String>>) -> Self {
        SpriteFrameState {
            region_id: frame.region_id,
            uv: frame.uv,
            pending_region: if region is Some {
                region
            } else {
                self.pending_region
            },
            ..self
        }
    }

    pub fn update_from_hot_frame(
        &mut self,
        frame: &SpriteFrameHotData<S>,
        region: Option<Arc<String>>,
    )
        ensures
            *final(self) == old(self).showing_hot(*frame, region),
    {
        self.region_id = frame.region_id;
        self.uv = frame.uv;
        if region.is_some() {
            self.pending_region = region;
        }
    }

    pub fn sync_from_sprite(&mut self, sprite: &Sprite<S>)
        ensures
            *final(self) == (SpriteFrameState {
                region_id: sprite.region_id,
                uv: sprite.uv,
                region_initialized: sprite.region_id != UNINITIALIZED_REGION,
                pending_region: if sprite.region_id != UNINITIALIZED_REGION {
                    None
                } else {
                    old(self).pending_region
                },
                queued_for_apply: false,
            }),
    {
        self.region_id = sprite.region_id;
        self.uv = sprite.uv;
        self.region_initialized = sprite.is_initialized();
        if self.region_initialized {
            self.pending_region = None;
        }
        self.queued_for_apply = false;
    }

    /// Writes what is wanted to the sprite; the state leaves the queue.
    pub fn apply_to(&mut self, sprite: &mut Sprite<S>)
        ensures
            *final(sprite) == (Sprite {
                region: match old(self).pending_region {
                    Some(region) => region,
                    None => old(sprite).region,
                },
                region_id: old(self).region_id,
                uv: old(self).uv,
                ..*old(sprite)
            }),
            *final(self) == (SpriteFrameState {
                pending_region: None,
                region_initialized: old(self).region_initialized || old(self).pending_region is Some,
                queued_for_apply: false,
                ..*old(self)
            }),
    {
        if let Some(region) = self.pending_region.take() {
            sprite.region = region;
            self.region_initialized = true;
        }
        sprite.region_id = self.region_id;
        sprite.uv = self.uv;
        self.queued_for_apply = false;
    }
}

pub struct SpriteAnimation<S> {
    pub timeline: Arc<String>,
    pub frames: Arc<Vec<SpriteAnimationFrame<S>>>,
    pub frame_hot_data: Arc<Vec<SpriteFrameHotData<S>>>,
    pub frame_durations: Arc<Vec<S>>,
    pub frame_offsets: Arc<Vec<S>>,
    pub total_duration: S,
    pub total_duration_inv: S,
    pub current_duration: S,
    pub current_frame_offset: S,
    pub frame_index: usize,
    pub elapsed_in_frame: S,
    pub pending_small_delta: S,
    pub playing: bool,
    pub looped: bool,
    pub mode: SpriteAnimationLoopMode,
    pub forward: bool,
    pub speed: S,
    pub start_offset: S,
    pub random_start: bool,
    pub group: Option<String>,
    pub has_events: bool,
    pub playback_rate: S,
    pub playback_rate_dirty: bool,
    pub fast_loop: bool,
    pub pending_start_events: bool,
    pub prev_forward: bool,
}

pub open spec fn any_frame_has_events<S>(frames: Seq<SpriteAnimationFrame<S>>) -> bool {
    exists|i: int| 0 <= i < frames.len() && (#[trigger] frames[i]).events@.len() > 0
}

pub open spec fn first_or_zero<S: Scalar>(values: Seq<S>) -> S {
    if values.len() > 0 {
        values[0]
    } else {
        S::zero_spec()
    }
}

fn first_or<S: Scalar>(values: &Vec<S>) -> (r: S)
    ensures
        r == first_or_zero(values@),
{
    if values.len() > 0 {
        values[0]
    } else {
        S::zero()
    }
}

impl<S: Scalar> SpriteAnimation<S> {
    /// Every frame has a duration, an offset and hot data.
    pub open spec fn wf(self) -> bool {
        &&& self.frame_durations@.len() == self.frames@.len()
        &&& self.frame_offsets@.len() == self.frames@.len()
        &&& self.frame_hot_data@.len() == self.frames@.len()
    }

    /// The current frame is one of the frames.
    pub open spec fn seated(self) -> bool {
        self.wf() && self.frame_index < self.frames@.len()
    }

    /// The current frame exists and has events to send.
    pub open spec fn current_frame_has_events(self) -> bool {
        self.frame_index < self.frames@.len() && self.frames@[self.frame_index as int].events@.len()
            > 0
    }

    pub fn new(
        timeline: Arc<String>,
        frames: Arc<Vec<SpriteAnimationFrame<S>>>,
        frame_hot_data: Arc<Vec<SpriteFrameHotData<S>>>,
        frame_durations: Arc<Vec<S>>,
        frame_offsets: Arc<Vec<S>>,
        total_duration: S,
        mode: SpriteAnimationLoopMode,
    ) -> (r: Self)
        ensures
            r.timeline == timeline,
            r.frames == frames,
            r.frame_hot_data == frame_hot_data,
            r.frame_durations == frame_durations,
            r.frame_offsets == frame_offsets,
            r.total_duration == total_duration,
            r.total_duration_inv == (if S::zero_spec().lt_spec(total_duration) {
                S::one_spec().over_spec(total_duration)
            } else {
                S::zero_spec()
            }),
            r.current_duration == first_or_zero(frame_durations@),
            r.current_frame_offset == first_or_zero(frame_offsets@),
            r.frame_index == 0,
            r.elapsed_in_frame == S::zero_spec(),
            r.pending_small_delta == S::zero_spec(),
            r.playing,
            r.looped == mode.repeats(),
            r.mode == mode,
            r.forward && r.prev_forward,
            r.speed == S::one_spec(),
            r.start_offset == S::zero_spec(),
            !r.random_start,
            r.group is None,
            r.has_events == any_frame_has_events(frames@),
            r.playback_rate == S::zero_spec(),
            r.playback_rate_dirty,
            r.fast_loop == (!r.has_events && mode is Loop),
            r.pending_start_events == (r.has_events && r.current_frame_has_events()),
    {
        let zero = S::zero();
        let total_duration_inv = if zero.lt(total_duration) {
            S::one().over(total_duration)
        } else {
            zero
        };
        let mut has_events: bool = false;
        let mut i: usize = 0;
        while i < frames.len()
            invariant
                i <= frames@.len(),
                has_events == any_frame_has_events(frames@.take(i as int)),
            decreases frames@.len() - i,
        {
            proof {
                let before = frames@.take(i as int);
                let now = frames@.take(i + 1);
                assert(forall|j: int| 0 <= j < i ==> now[j] == before[j]);
                assert(now[i as int] == frames@[i as int]);
                if any_frame_has_events(before) {
                    let j = choose|j: int|
                        0 <= j < before.len() && (#[trigger] before[j]).events@.len() > 0;
                    assert(now[j].events@.len() > 0);
                }
            }
            if frames[i].events.len() > 0 {
                has_events = true;
            }
            i = i + 1;
        }
        assert(frames@.take(i as int) == frames@);
        let fast_loop = !has_events && matches!(mode, SpriteAnimationLoopMode::Loop);
        let current_duration = first_or(&frame_durations);
        let current_frame_offset = first_or(&frame_offsets);
        let mut animation = SpriteAnimation {
            timeline,
            frames,
            frame_hot_data,
            frame_durations,
            frame_offsets,
            total_duration,
            total_duration_inv,
            current_duration,
            current_frame_offset,
            frame_index: 0,
            elapsed_in_frame: zero,
            pending_small_delta: zero,
            playing: true,
            looped: mode.looped(),
            mode,
            forward: true,
            speed: S::one(),
            start_offset: zero,
            random_start: false,
            group: None,
            has_events,
            playback_rate: zero,
            playback_rate_dirty: true,
            fast_loop,
            pending_start_events: false,
            prev_forward: true,
        };
        animation.refresh_pending_start_events();
        animation
    }

    pub open spec fn start_events_refreshed(self) -> Self {
        SpriteAnimation {
            pending_start_events: self.has_events && self.current_frame_has_events(),
            ..self
        }
    }

    pub fn refresh_pending_start_events(&mut self)
        ensures
            *final(self) == old(self).start_events_refreshed(),
    {
        self.pending_start_events = self.has_events && self.frame_index < self.frames.len()
            && self.frames[self.frame_index].events.len() > 0;
    }

    pub fn set_mode(&mut self, mode: SpriteAnimationLoopMode)
        ensures
            *final(self) == (SpriteAnimation {
                mode,
                looped: mode.repeats(),
                forward: true,
                prev_forward: true,
                fast_loop: !old(self).has_events && mode is Loop,
                ..*old(self)
            }).start_events_refreshed(),
    {
        self.mode = mode;
        self.looped = mode.looped();
        self.forward = true;
        self.prev_forward = true;
        self.fast_loop = !self.has_events && matches!(mode, SpriteAnimationLoopMode::Loop);
        self.refresh_pending_start_events();
    }

    pub fn set_start_offset(&mut self, offset: S)
        ensures
            *final(self) == (SpriteAnimation {
                start_offset: offset.larger_spec(S::zero_spec()),
                ..*old(self)
            }),
    {
        self.start_offset = offset.larger(S::zero());
    }

    pub fn set_random_start(&mut self, random: bool)
        ensures
            *final(self) == (SpriteAnimation { random_start: random, ..*old(self) }),
    {
        self.random_start = random;
    }

    pub fn set_group(&mut self, group: Option<String>)
        ensures
            *final(self) == (SpriteAnimation { group, playback_rate_dirty: true, ..*old(self) }),
    {
        self.group = group;
        self.mark_playback_rate_dirty();
    }

    pub open spec fn group_name(self) -> Option<Seq<char>> {
        match self.group {
            Some(name) => Some(name@),
            None => None,
        }
    }

    pub fn group(&self) -> (r: Option<&str>)
        ensures
            match r {
                Some(name) => self.group_name() == Some(name@),
                None => self.group_name() is None,
            },
    {
        match &self.group {
            Some(name) => Some(name.as_str()),
            None => None,
        }
    }

    pub fn current_region_name(&self) -> (r: Option<&str>)
        ensures
            match r {
                Some(name) => self.frame_index < self.frames@.len() && name@
                    == self.frames@[self.frame_index as int].region@,
                None => self.frame_index >= self.frames@.len(),
            },
    {
        if self.frame_index < self.frames.len() {
            Some(self.frames[self.frame_index].region.as_str())
        } else {
            None
        }
    }

    pub fn current_region_handle(&self) -> (r: Option<Arc<String>>)
        ensures
            r == (if self.frame_index < self.frames@.len() {
                Some(self.frames@[self.frame_index as int].region)
            } else {
                None
            }),
    {
        if self.frame_index < self.frames.len() {
            Some(self.frames[self.frame_index].region.clone())
        } else {
            None
        }
    }

    pub fn current_region_id(&self) -> (r: Option<u16>)
        ensures
            r == (if self.frame_index < self.frames@.len() {
                Some(self.frames@[self.frame_index as int].region_id)
            } else {
                None
            }),
    {
        if self.frame_index < self.frames.len() {
            Some(self.frames[self.frame_index].region_id)
        } else {
            None
        }
    }

    pub fn current_frame(&self) -> (r: Option<&SpriteAnimationFrame<S>>)
        ensures
            match r {
                Some(frame) => self.frame_index < self.frames@.len() && *frame
                    == self.frames@[self.frame_index as int],
                None => self.frame_index >= self.frames@.len(),
            },
    {
        if self.frame_index < self.frames.len() {
            Some(&self.frames[self.frame_index])
        } else {
            None
        }
    }

    pub fn frame_count(&self) -> (r: usize)
        ensures
            r == self.frames@.len(),
    {
        self.frames.len()
    }

    pub fn total_duration(&self) -> (r: S)
        ensures
            r == self.total_duration,
    {
        self.total_duration
    }

    pub fn mark_playback_rate_dirty(&mut self)
        ensures
            *final(self) == (SpriteAnimation { playback_rate_dirty: true, ..*old(self) }),
    {
        self.playback_rate_dirty = true;
    }

    pub fn set_speed(&mut self, speed: S)
        ensures
            *final(self) == (SpriteAnimation { speed, playback_rate_dirty: true, ..*old(self) }),
    {
        self.speed = speed;
        self.playback_rate_dirty = true;
    }

    pub open spec fn rate_ensured(self, group_scale: S) -> Self {
        if self.playback_rate_dirty {
            SpriteAnimation {
                playback_rate: self.speed.times_spec(group_scale),
                playback_rate_dirty: false,
                ..self
            }
        } else {
            self
        }
    }

    pub fn ensure_playback_rate(&mut self, group_scale: S) -> (r: S)
        ensures
            *final(self) == old(self).rate_ensured(group_scale),
            r == final(self).playback_rate,
    {
        if self.playback_rate_dirty {
            self.playback_rate = self.speed.times(group_scale);
            self.playback_rate_dirty = false;
        }
        self.playback_rate
    }

    /// The animation with `index` as its current frame.
    pub open spec fn at_frame(self, index: int) -> Self {
        SpriteAnimation {
            frame_index: index as usize,
            current_duration: self.frame_durations@[index],
            current_frame_offset: self.frame_offsets@[index],
            ..self
        }
    }

    pub fn set_frame_metrics(&mut self, index: usize)
        requires
            index < old(self).frame_durations@.len(),
            index < old(self).frame_offsets@.len(),
        ensures
            *final(self) == old(self).at_frame(index as int),
    {
        self.frame_index = index;
        self.current_duration = self.frame_durations[index];
        self.current_frame_offset = self.frame_offsets[index];
    }

    pub open spec fn duration_refreshed(self) -> Self {
        if self.frame_index < self.frame_durations@.len() {
            self.at_frame(self.frame_index as int)
        } else {
            SpriteAnimation {
                current_duration: S::zero_spec(),
                current_frame_offset: S::zero_spec(),
                ..self
            }
        }
    }

    pub fn refresh_current_duration(&mut self)
        requires
            old(self).frame_durations@.len() == old(self).frame_offsets@.len(),
        ensures
            *final(self) == old(self).duration_refreshed(),
    {
        if self.frame_index < self.frame_durations.len() {
            self.set_frame_metrics(self.frame_index);
        } else {
            self.current_duration = S::zero();
            self.current_frame_offset = S::zero();
        }
    }

    /// Steps too small to matter are gathered until they do; a change of direction drops them.
    pub open spec fn delta_gathered(pending: S, delta: S, epsilon: S) -> (S, Option<S>) {
        let zero = S::zero_spec();
        if delta.same_spec(zero) {
            (pending, None)
        } else {
            let carried = if !pending.same_spec(zero) && pending.lt_spec(zero) != delta.lt_spec(
                zero,
            ) {
                zero
            } else {
                pending
            };
            let total = carried.plus_spec(delta);
            if epsilon.negated_spec().lt_spec(total) && total.lt_spec(epsilon) {
                (total, None)
            } else {
                (zero, Some(total))
            }
        }
    }

    pub fn accumulate_delta(&mut self, delta: S, epsilon: S) -> (r: Option<S>)
        ensures
            ({
                let (pending, ready) = Self::delta_gathered(
                    old(self).pending_small_delta,
                    delta,
                    epsilon,
                );
                r == ready && *final(self) == (SpriteAnimation {
                    pending_small_delta: pending,
                    ..*old(self)
                })
            }),
    {
        let (pending, ready) = gather_delta(self.pending_small_delta, delta, epsilon);
        self.pending_small_delta = pending;
        ready
    }

    /// An animation whose current frame is gone starts over; nothing moves that does not play.
    pub open spec fn prepared(self) -> Self {
        if self.frames@.len() == 0 || self.frame_index < self.frames@.len() {
            self
        } else {
            (SpriteAnimation {
                frame_index: 0,
                elapsed_in_frame: S::zero_spec(),
                ..self
            }).duration_refreshed()
        }
    }

    pub fn prepare(&mut self) -> (r: bool)
        requires
            old(self).wf(),
        ensures
            *final(self) == old(self).prepared(),
            r == (old(self).frames@.len() > 0 && old(self).playing),
    {
        if self.frames.len() == 0 {
            return false;
        }
        if self.frame_index >= self.frames.len() {
            self.frame_index = 0;
            self.elapsed_in_frame = S::zero();
            self.refresh_current_duration();
        }
        self.playing
    }

    /// Plays or pauses; an animation without frames never plays.
    pub fn set_playing(&mut self, playing: bool)
        ensures
            *final(self) == (SpriteAnimation {
                playing: playing && old(self).frames@.len() > 0,
                ..*old(self)
            }),
    {
        self.playing = playing && self.frames.len() > 0;
    }

    /// Jumps to a frame; an index past the end is the last frame. Says whether that moved
    /// anything, or `None` without frames.
    pub fn seek_frame(&mut self, frame: usize) -> (r: Option<bool>)
        requires
            old(self).wf(),
        ensures
            ({
                let len = old(self).frames@.len();
                let target = if frame < len {
                    frame as int
                } else {
                    len - 1
                };
                let moves = old(self).frame_index != target || !old(
                    self,
                ).elapsed_in_frame.same_spec(S::zero_spec());
                if len == 0 {
                    r is None && *final(self) == *old(self)
                } else if moves {
                    r == Some(true) && *final(self) == (SpriteAnimation {
                        elapsed_in_frame: S::zero_spec(),
                        ..old(self).at_frame(target)
                    })
                } else {
                    r == Some(false) && *final(self) == *old(self)
                }
            }),
    {
        if self.frames.len() == 0 {
            return None;
        }
        let target: usize = if frame < self.frames.len() {
            frame
        } else {
            self.frames.len() - 1
        };
        if self.frame_index == target && self.elapsed_in_frame.same(S::zero()) {
            return Some(false);
        }
        self.elapsed_in_frame = S::zero();
        self.set_frame_metrics(target);
        Some(true)
    }
}

pub fn gather_delta<S: Scalar>(pending: S, delta: S, epsilon: S) -> (r: (S, Option<S>))
    ensures
        r == SpriteAnimation::<S>::delta_gathered(pending, delta, epsilon),
{
    let zero = S::zero();
    if delta.same(zero) {
        return (pending, None);
    }
    let mut carried = pending;
    if !pending.same(zero) && pending.lt(zero) != delta.lt(zero) {
        carried = zero;
    }
    let total = carried.plus(delta);
    if epsilon.negated().lt(total) && total.lt(epsilon) {
        (total, None)
    } else {
        (zero, Some(total))
    }
}

} // verus!
