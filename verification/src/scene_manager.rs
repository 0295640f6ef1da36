//! A scene stack for applications with several game states or menu layers.
//!
//! Scenes are the host application's own state objects; the manager only
//! owns the stack and applies the switch each frame's update requests.
//! Scenes are drawn front to back (the bottom of the stack first); only the
//! scene on top runs its update, and only it should listen to the pointer.

use vstd::prelude::*;

verus! {

/// What a scene's update asks the manager to do with the stack.
pub enum SceneSwitch<S> {
    /// No switch; the current scene stays on top and keeps running.
    Keep,
    /// Removes the given number of scenes from the top of the stack (in
    /// particular the current scene, ending it).
    Pop(u32),
    /// Pushes a new scene on top, pausing the current one until the new
    /// scene is popped again.
    Push(S),
    /// Pops the given number of scenes and pushes a new one in the same
    /// action.
    Replace(u32, S),
}

impl<S> SceneSwitch<S> {
    /// Creates a switch that keeps the current scene.
    pub fn none() -> (r: Self)
        ensures
            r is Keep,
    {
        SceneSwitch::Keep
    }

    /// Creates a switch that pushes the given scene.
    pub fn push(scene: S) -> (r: Self)
        ensures
            r is Push && r->Push_0 == scene,
    {
        SceneSwitch::Push(scene)
    }

    /// Creates a switch that pops the given number of scenes.
    pub fn pop(pop_amount: u32) -> (r: Self)
        ensures
            r is Pop && r->Pop_0 == pop_amount,
    {
        SceneSwitch::Pop(pop_amount)
    }

    /// Creates a switch that pops the given number of scenes and pushes
    /// the given one.
    pub fn replace(scene: S, pop_amount: u32) -> (r: Self)
        ensures
            r is Replace && r->Replace_0 == pop_amount && r->Replace_1 == scene,
    {
        SceneSwitch::Replace(pop_amount, scene)
    }
}

/// The stack after removing `n` scenes from its top (all of them when
/// fewer remain).
pub open spec fn spec_popped<S>(stack: Seq<S>, n: int) -> Seq<S> {
    if n >= stack.len() {
        Seq::empty()
    } else {
        stack.take(stack.len() - n)
    }
}

/// Owns the stack of scenes. Scenes are pushed to and popped from the
/// back; the back is the running scene. The application's frame loop asks
/// the top scene for a switch and applies it here; the game ends when the
/// stack runs empty.
pub struct SceneManager<S> {
    /// The scenes, bottom first; the last entry is the running scene.
    pub scene_stack: Vec<S>,
}

impl<S> SceneManager<S> {
    /// Creates a manager running the given initial scene.
    pub fn new(initial_scene: S) -> (r: Self)
        ensures
            r.scene_stack@.len() == 1,
            r.scene_stack@[0] == initial_scene,
    {
        let mut scene_stack = Vec::new();
        scene_stack.push(initial_scene);
        SceneManager { scene_stack }
    }

    /// Applies the switch the running scene requested: keeps the stack,
    /// pops from its top, pushes a new scene, or both.
    pub fn apply_switch(&mut self, switch: SceneSwitch<S>)
        ensures
            match switch {
                SceneSwitch::Keep => final(self).scene_stack@ == old(self).scene_stack@,
                SceneSwitch::Pop(n) => final(self).scene_stack@ == spec_popped(
                    old(self).scene_stack@,
                    n as int,
                ),
                SceneSwitch::Push(scene) => final(self).scene_stack@ == old(
                    self,
                ).scene_stack@.push(scene),
                SceneSwitch::Replace(n, scene) => final(self).scene_stack@ == spec_popped(
                    old(self).scene_stack@,
                    n as int,
                ).push(scene),
            },
    {
        match switch {
            SceneSwitch::Keep => {},
            SceneSwitch::Pop(n) => {
                self.pop_n(n);
            },
            SceneSwitch::Push(scene) => {
                self.scene_stack.push(scene);
            },
            SceneSwitch::Replace(n, scene) => {
                self.pop_n(n);
                self.scene_stack.push(scene);
            },
        }
    }

    /// Removes `n` scenes from the top of the stack (all of them when
    /// fewer remain).
    fn pop_n(&mut self, n: u32)
        ensures
            final(self).scene_stack@ == spec_popped(old(self).scene_stack@, n as int),
    {
        let mut i: u32 = 0;
        while i < n
            invariant
                0 <= i <= n,
                self.scene_stack@ == spec_popped(old(self).scene_stack@, i as int),
            decreases n - i,
        {
            if self.scene_stack.len() > 0 {
                self.scene_stack.pop();
                proof {
                    assert(self.scene_stack@ =~= spec_popped(
                        old(self).scene_stack@,
                        i + 1,
                    ));
                }
            } else {
                proof {
                    assert(self.scene_stack@ =~= spec_popped(
                        old(self).scene_stack@,
                        i + 1,
                    ));
                }
            }
            i = i + 1;
        }
    }

    /// The number of scenes on the stack.
    pub fn len(&self) -> (r: usize)
        ensures
            r == self.scene_stack@.len(),
    {
        self.scene_stack.len()
    }

    /// Whether the stack has run empty, which ends the application.
    pub fn is_empty(&self) -> (r: bool)
        ensures
            r == (self.scene_stack@.len() == 0),
    {
        self.scene_stack.len() == 0
    }
}

} // verus!
