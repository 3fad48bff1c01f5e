//! An immediate-mode GUI: widgets are recorded during a frame, then turned
//! into quads, in the order recorded, and forgotten.
use vstd::prelude::*;

verus! {

/// A frame widget: a rectangle of size `S` placed by a transform `T`.
pub struct FrameCommand<S, T> {
    pub size: S,
    pub transform: T,
}

/// A recorded widget.
pub enum ImmediateGUICommand<S, T> {
    Frame(FrameCommand<S, T>),
}

/// The widgets recorded since the last quad generation.
pub struct ImmediateGUI<S, T> {
    commands: Vec<ImmediateGUICommand<S, T>>,
}

/// The size and transform of a recorded widget.
pub open spec fn command_parts<S, T>(c: ImmediateGUICommand<S, T>) -> (S, T) {
    match c {
        ImmediateGUICommand::Frame(f) => (f.size, f.transform),
    }
}

impl<S, T> ImmediateGUI<S, T> {
    /// The widgets recorded, in order.
    pub closed spec fn recorded(&self) -> Seq<ImmediateGUICommand<S, T>> {
        self.commands@
    }

    /// Nothing recorded.
    pub fn new() -> (g: Self)
        ensures
            g.recorded().len() == 0,
    {
        ImmediateGUI { commands: Vec::new() }
    }

    /// Records a frame of size `size` placed by `transform`.
    pub fn frame(&mut self, size: S, transform: T)
        ensures
            final(self).recorded() == old(self).recorded().push(
                ImmediateGUICommand::Frame(FrameCommand { size, transform }),
            ),
    {
        self.commands.push(ImmediateGUICommand::Frame(FrameCommand { size, transform }));
    }

    /// Turns each recorded widget, in order, into a quad with `into_quad`
    /// (given its size and transform), and forgets the widgets.
    pub fn generate_quads<Q, F: Fn(S, T) -> Q>(&mut self, into_quad: F) -> (quads: Vec<Q>)
        requires
            forall|s: S, t: T| #[trigger] call_requires(into_quad, (s, t)),
        ensures
            final(self).recorded().len() == 0,
            quads@.len() == old(self).recorded().len(),
            forall|i: int|
                0 <= i < quads@.len() ==> call_ensures(
                    into_quad,
                    (command_parts(old(self).recorded()[i]).0, command_parts(old(self).recorded()[i]).1),
                    #[trigger] quads@[i],
                ),
    {
        let ghost recorded = self.commands@;
        let mut quads: Vec<Q> = Vec::new();
        let mut commands: Vec<ImmediateGUICommand<S, T>> = Vec::new();
        std::mem::swap(&mut commands, &mut self.commands);
        let n = commands.len();
        let mut i: usize = 0;
        while i < n
            invariant
                n == recorded.len(),
                i <= n,
                commands@ == recorded.skip(i as int),
                quads@.len() == i,
                forall|s: S, t: T| #[trigger] call_requires(into_quad, (s, t)),
                forall|j: int|
                    0 <= j < i ==> call_ensures(
                        into_quad,
                        (command_parts(recorded[j]).0, command_parts(recorded[j]).1),
                        #[trigger] quads@[j],
                    ),
            decreases n - i,
        {
            let command = commands.remove(0);
            assert(recorded.skip(i as int)[0] == recorded[i as int]);
            assert(commands@ =~= recorded.skip(i + 1));
            let q = match command {
                ImmediateGUICommand::Frame(frame) => into_quad(frame.size, frame.transform),
            };
            quads.push(q);
            i = i + 1;
        }
        quads
    }
}

/// The widgets that `frame` records for `frames`, each a size and a
/// transform, in order.
pub open spec fn frame_commands<S, T>(frames: Seq<(S, T)>) -> Seq<ImmediateGUICommand<S, T>> {
    Seq::new(
        frames.len(),
        |i: int| ImmediateGUICommand::Frame(FrameCommand { size: frames[i].0, transform: frames[i].1 }),
    )
}

/// A new GUI records nothing, and each `frame` call adds its widget after
/// those of the frames recorded before it.
pub proof fn law_frames_are_recorded_in_order<S, T>(frames: Seq<(S, T)>, size: S, transform: T)
    ensures
        frame_commands(Seq::<(S, T)>::empty()) == Seq::<ImmediateGUICommand<S, T>>::empty(),
        frame_commands(frames).push(ImmediateGUICommand::Frame(FrameCommand { size, transform }))
            == frame_commands(frames.push((size, transform))),
{
    assert(frame_commands(Seq::<(S, T)>::empty()) =~= Seq::<ImmediateGUICommand<S, T>>::empty());
    assert(frame_commands(frames).push(ImmediateGUICommand::Frame(FrameCommand { size, transform }))
        =~= frame_commands(frames.push((size, transform))));
}

/// The quads generated from the widgets of `frames` are one per frame, in
/// the order of the frames, each made from its own frame's size and
/// transform.
pub proof fn law_quads_follow_frames<S, T, Q, F: Fn(S, T) -> Q>(frames: Seq<(S, T)>, into_quad: F, quads: Seq<Q>)
    requires
        quads.len() == frame_commands(frames).len(),
        forall|i: int|
            0 <= i < quads.len() ==> call_ensures(
                into_quad,
                (command_parts(frame_commands(frames)[i]).0, command_parts(frame_commands(frames)[i]).1),
                #[trigger] quads[i],
            ),
    ensures
        quads.len() == frames.len(),
        forall|i: int| 0 <= i < quads.len() ==> call_ensures(into_quad, (frames[i].0, frames[i].1), #[trigger] quads[i]),
{
    assert forall|i: int| 0 <= i < quads.len() implies call_ensures(
        into_quad,
        (frames[i].0, frames[i].1),
        #[trigger] quads[i],
    ) by {
        assert(command_parts(frame_commands(frames)[i]) == frames[i]);
    }
}

} // verus!
