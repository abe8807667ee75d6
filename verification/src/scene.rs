//! The scene: its objects, its own (deletable) camera and what the user has
//! selected. Objects and cameras are carried as they are; the rules here are
//! about which of them exist and which one is selected.
use vstd::prelude::*;

verus! {

/// What the user has selected.
#[derive(Clone, Copy, PartialEq, Eq, Structural, Debug)]
pub enum Selection {
    Nothing,
    Object(usize),
    Camera,
}

/// How the scene camera projects.
#[derive(Clone, Copy, PartialEq, Eq, Structural, Debug)]
pub enum ProjectionMode {
    Perspective,
    Orthographic,
}

/// A scene of objects `O` and at most one scene camera `C` (`None` once the
/// user deleted it; it can be added back).
pub struct Scene<O, C> {
    pub objects: Vec<O>,
    pub selected: Selection,
    pub scene_camera: Option<C>,
}

/// The selection names something that exists: an object by an index in
/// range, or the camera while there is one.
pub open spec fn selection_valid<O, C>(objects: Seq<O>, selected: Selection, camera: Option<C>) -> bool {
    match selected {
        Selection::Nothing => true,
        Selection::Object(i) => i < objects.len(),
        Selection::Camera => camera is Some,
    }
}

impl<O, C> Scene<O, C> {
    /// The selection of this scene names something that exists.
    pub open spec fn well_selected(&self) -> bool {
        selection_valid(self.objects@, self.selected, self.scene_camera)
    }

    /// An empty scene with `camera` as its scene camera and nothing
    /// selected.
    pub fn new(camera: C) -> (s: Self)
        ensures
            s.objects@ == Seq::<O>::empty(),
            s.selected == Selection::Nothing,
            s.scene_camera == Some(camera),
            s.well_selected(),
    {
        Scene { objects: Vec::new(), selected: Selection::Nothing, scene_camera: Some(camera) }
    }

    /// Gives the scene `camera` as its camera where it has none; a scene that
    /// has a camera keeps it.
    pub fn add_default_camera(&mut self, camera: C)
        ensures
            final(self).objects@ == old(self).objects@,
            final(self).selected == old(self).selected,
            final(self).scene_camera == (match old(self).scene_camera {
                Some(c) => Some(c),
                None => Some(camera),
            }),
            old(self).well_selected() ==> final(self).well_selected(),
    {
        if self.scene_camera.is_none() {
            self.scene_camera = Some(camera);
        }
    }

    /// Deletes the scene camera, and the selection with it where the camera
    /// was selected.
    pub fn remove_camera(&mut self)
        ensures
            final(self).objects@ == old(self).objects@,
            final(self).scene_camera is None,
            final(self).selected == (if old(self).selected == Selection::Camera {
                Selection::Nothing
            } else {
                old(self).selected
            }),
            old(self).well_selected() ==> final(self).well_selected(),
    {
        self.scene_camera = None;
        if self.selected == Selection::Camera {
            self.selected = Selection::Nothing;
        }
    }

    /// Deletes object `index` where there is one, and then clears the
    /// selection (the indices after it shift); out of range, nothing changes.
    pub fn delete_object(&mut self, index: usize)
        ensures
            final(self).scene_camera == old(self).scene_camera,
            index < old(self).objects@.len() ==> final(self).objects@ == old(self).objects@.remove(
                index as int,
            ) && final(self).selected == Selection::Nothing,
            index >= old(self).objects@.len() ==> final(self).objects@ == old(self).objects@
                && final(self).selected == old(self).selected,
            old(self).well_selected() ==> final(self).well_selected(),
    {
        if index < self.objects.len() {
            self.objects.remove(index);
            self.selected = Selection::Nothing;
        }
    }
}

} // verus!
