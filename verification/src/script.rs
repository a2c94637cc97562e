//! Behaviour scripts: timed keyframes that a renderer plays back. The bus
//! carries them as a message payload.
//!
//! Times, durations, coordinates and factors are single-precision numbers,
//! held here as their IEEE-754 bit patterns (`f32::to_bits`).

use vstd::prelude::*;

verus! {

/// One step of a script.
#[derive(Debug, Clone)]
pub enum Action {
    PlayAnimation { name: String },
    MoveTo { x: u32, y: u32 },
    Scale { factor: u32 },
    SetExpression { expression: String },
    Wait { duration: u32 },
    Random { scripts: Vec<String> },
}

/// An action and the time, from the start of the script, at which it is due.
#[derive(Debug, Clone)]
pub struct Keyframe {
    pub time: u32,
    pub action: Action,
}

/// A named sequence of keyframes.
#[derive(Debug, Clone)]
pub struct BehaviorScript {
    pub id: String,
    pub duration: Option<u32>,
    pub keyframes: Vec<Keyframe>,
    pub next: Option<String>,
    pub interruptible: bool,
}

/// What an [`Action`] holds, as mathematical values.
pub ghost enum ActionView {
    PlayAnimation { name: Seq<char> },
    MoveTo { x: u32, y: u32 },
    Scale { factor: u32 },
    SetExpression { expression: Seq<char> },
    Wait { duration: u32 },
    Random { scripts: Seq<Seq<char>> },
}

/// What a [`Keyframe`] holds, as mathematical values.
pub ghost struct KeyframeView {
    pub time: u32,
    pub action: ActionView,
}

/// What a [`BehaviorScript`] holds, as mathematical values.
pub ghost struct ScriptView {
    pub id: Seq<char>,
    pub duration: Option<u32>,
    pub keyframes: Seq<KeyframeView>,
    pub next: Option<Seq<char>>,
    pub interruptible: bool,
}

/// The texts of a list of strings.
pub open spec fn texts(v: Seq<String>) -> Seq<Seq<char>> {
    Seq::new(v.len(), |i: int| v[i]@)
}

/// The text of a string that may be absent.
pub open spec fn opt_text(o: Option<String>) -> Option<Seq<char>> {
    match o {
        Some(s) => Some(s@),
        None => None,
    }
}

/// The views of a list of keyframes.
pub open spec fn keyframe_views(v: Seq<Keyframe>) -> Seq<KeyframeView> {
    Seq::new(v.len(), |i: int| v[i]@)
}

impl View for Action {
    type V = ActionView;

    open spec fn view(&self) -> ActionView {
        match *self {
            Action::PlayAnimation { name } => ActionView::PlayAnimation { name: name@ },
            Action::MoveTo { x, y } => ActionView::MoveTo { x, y },
            Action::Scale { factor } => ActionView::Scale { factor },
            Action::SetExpression { expression } => ActionView::SetExpression {
                expression: expression@,
            },
            Action::Wait { duration } => ActionView::Wait { duration },
            Action::Random { scripts } => ActionView::Random { scripts: texts(scripts@) },
        }
    }
}

impl View for Keyframe {
    type V = KeyframeView;

    open spec fn view(&self) -> KeyframeView {
        KeyframeView { time: self.time, action: self.action@ }
    }
}

impl View for BehaviorScript {
    type V = ScriptView;

    open spec fn view(&self) -> ScriptView {
        ScriptView {
            id: self.id@,
            duration: self.duration,
            keyframes: keyframe_views(self.keyframes@),
            next: opt_text(self.next),
            interruptible: self.interruptible,
        }
    }
}

/// The ids of a list of scripts.
pub open spec fn script_ids(v: Seq<BehaviorScript>) -> Seq<Seq<char>> {
    Seq::new(v.len(), |i: int| v[i].id@)
}

fn play(time: u32, name: &str) -> (r: Keyframe)
    ensures
        r@ == (KeyframeView { time, action: ActionView::PlayAnimation { name: name@ } }),
{
    Keyframe { time, action: Action::PlayAnimation { name: name.to_owned() } }
}

fn at(time: u32, action: Action) -> (r: Keyframe)
    ensures
        r == (Keyframe { time, action }),
{
    Keyframe { time, action }
}

impl BehaviorScript {
    /// Standing still for three seconds, then idling again or walking.
    #[must_use]
    pub fn idle() -> (r: Self)
        ensures
            r.id@ == "idle"@,
            r.duration == Some(0x4040_0000u32),
            r.keyframes@.len() == 3,
            r.keyframes@[0]@ == (KeyframeView {
                time: 0,
                action: ActionView::PlayAnimation { name: "idle"@ },
            }),
            r.keyframes@[1]@ == (KeyframeView { time: 0, action: ActionView::MoveTo { x: 0, y: 0 } }),
            r.keyframes@[2]@ == (KeyframeView {
                time: 0x4040_0000,
                action: ActionView::Random { scripts: seq!["idle"@, "idle"@, "walk"@] },
            }),
            r.next is None,
            r.interruptible,
    {
        let mut choices: Vec<String> = Vec::new();
        choices.push("idle".to_owned());
        choices.push("idle".to_owned());
        choices.push("walk".to_owned());
        assert(texts(choices@) =~= seq!["idle"@, "idle"@, "walk"@]);
        let mut keyframes: Vec<Keyframe> = Vec::new();
        keyframes.push(play(0, "idle"));
        keyframes.push(at(0, Action::MoveTo { x: 0, y: 0 }));
        keyframes.push(at(0x4040_0000, Action::Random { scripts: choices }));
        BehaviorScript {
            id: "idle".to_owned(),
            duration: Some(0x4040_0000),
            keyframes,
            next: None,
            interruptible: true,
        }
    }

    /// Walking to the right and back for four seconds, then idling.
    #[must_use]
    pub fn walk() -> (r: Self)
        ensures
            r.id@ == "walk"@,
            r.duration == Some(0x4080_0000u32),
            r.keyframes@.len() == 3,
            r.keyframes@[0]@ == (KeyframeView {
                time: 0,
                action: ActionView::PlayAnimation { name: "walk"@ },
            }),
            r.keyframes@[1]@ == (KeyframeView {
                time: 0,
                action: ActionView::MoveTo { x: 0x3e99_999a, y: 0 },
            }),
            r.keyframes@[2]@ == (KeyframeView {
                time: 0x4000_0000,
                action: ActionView::MoveTo { x: 0xbe99_999a, y: 0 },
            }),
            opt_text(r.next) == Some("idle"@),
            r.interruptible,
    {
        let mut keyframes: Vec<Keyframe> = Vec::new();
        keyframes.push(play(0, "walk"));
        keyframes.push(at(0, Action::MoveTo { x: 0x3e99_999a, y: 0 }));
        keyframes.push(at(0x4000_0000, Action::MoveTo { x: 0xbe99_999a, y: 0 }));
        BehaviorScript {
            id: "walk".to_owned(),
            duration: Some(0x4080_0000),
            keyframes,
            next: Some("idle".to_owned()),
            interruptible: true,
        }
    }

    /// Jumping and spinning for two seconds, then idling; not to be
    /// interrupted.
    #[must_use]
    pub fn happy() -> (r: Self)
        ensures
            r.id@ == "happy"@,
            r.duration == Some(0x4000_0000u32),
            r.keyframes@.len() == 4,
            r.keyframes@[0]@ == (KeyframeView {
                time: 0,
                action: ActionView::PlayAnimation { name: "jump"@ },
            }),
            r.keyframes@[1]@ == (KeyframeView {
                time: 0x3f00_0000,
                action: ActionView::Scale { factor: 0x3f99_999a },
            }),
            r.keyframes@[2]@ == (KeyframeView {
                time: 0x3f80_0000,
                action: ActionView::Scale { factor: 0x3f80_0000 },
            }),
            r.keyframes@[3]@ == (KeyframeView {
                time: 0x3fc0_0000,
                action: ActionView::PlayAnimation { name: "spin"@ },
            }),
            opt_text(r.next) == Some("idle"@),
            !r.interruptible,
    {
        let mut keyframes: Vec<Keyframe> = Vec::new();
        keyframes.push(play(0, "jump"));
        keyframes.push(at(0x3f00_0000, Action::Scale { factor: 0x3f99_999a }));
        keyframes.push(at(0x3f80_0000, Action::Scale { factor: 0x3f80_0000 }));
        keyframes.push(play(0x3fc0_0000, "spin"));
        BehaviorScript {
            id: "happy".to_owned(),
            duration: Some(0x4000_0000),
            keyframes,
            next: Some("idle".to_owned()),
            interruptible: false,
        }
    }

    /// Sleeping without end.
    #[must_use]
    pub fn sleep() -> (r: Self)
        ensures
            r.id@ == "sleep"@,
            r.duration is None,
            r.keyframes@.len() == 1,
            r.keyframes@[0]@ == (KeyframeView {
                time: 0,
                action: ActionView::PlayAnimation { name: "sleep"@ },
            }),
            r.next is None,
            r.interruptible,
    {
        let mut keyframes: Vec<Keyframe> = Vec::new();
        keyframes.push(play(0, "sleep"));
        BehaviorScript {
            id: "sleep".to_owned(),
            duration: None,
            keyframes,
            next: None,
            interruptible: true,
        }
    }

    /// The scripts that every installation has: idle, walk, happy, sleep.
    #[must_use]
    pub fn builtin_scripts() -> (r: Vec<Self>)
        ensures
            script_ids(r@) == seq!["idle"@, "walk"@, "happy"@, "sleep"@],
    {
        let mut v: Vec<BehaviorScript> = Vec::new();
        v.push(Self::idle());
        v.push(Self::walk());
        v.push(Self::happy());
        v.push(Self::sleep());
        assert(script_ids(v@) =~= seq!["idle"@, "walk"@, "happy"@, "sleep"@]);
        v
    }
}

} // verus!
