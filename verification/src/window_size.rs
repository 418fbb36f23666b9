//! The viewport tracker: each camera learns the current size of its window.

use vstd::prelude::*;
use crate::scene::{Camera, Scene, WindowSize};

verus! {

/// The camera after the tracker has looked up its window: it carries the
/// window's size if the window is there, and the size it had if it is not.
pub open spec fn tracked_camera(windows: Seq<Option<WindowSize>>, camera: Camera) -> Camera {
    if camera.window < windows.len() && windows[camera.window as int] is Some {
        Camera { size: windows[camera.window as int]->Some_0, ..camera }
    } else {
        camera
    }
}

/// Every camera of the list after the tracker has passed over it.
pub open spec fn tracked_cameras(windows: Seq<Option<WindowSize>>, cameras: Seq<Camera>) -> Seq<
    Camera,
> {
    Seq::new(cameras.len(), |i: int| tracked_camera(windows, cameras[i]))
}

/// Syncs the size of each window to the cameras that render to it.
/// `windows` holds the size of each open window under the window's number.
pub fn window_size(scene: &mut Scene, windows: &Vec<Option<WindowSize>>)
    ensures
        final(scene).layers@ == old(scene).layers@,
        final(scene).tiles@ == old(scene).tiles@,
        final(scene).cameras@ == tracked_cameras(windows@, old(scene).cameras@),
{
    let count = scene.cameras.len();
    let mut index: usize = 0;
    while index < count
        invariant
            index <= count,
            count == scene.cameras@.len(),
            scene.cameras@.len() == old(scene).cameras@.len(),
            scene.layers@ == old(scene).layers@,
            scene.tiles@ == old(scene).tiles@,
            forall|i: int|
                0 <= i < index ==> scene.cameras@[i] == tracked_camera(
                    windows@,
                    old(scene).cameras@[i],
                ),
            forall|i: int| index <= i < count ==> scene.cameras@[i] == old(scene).cameras@[i],
        decreases count - index,
    {
        let camera = scene.cameras[index];
        if camera.window < windows.len() {
            match windows[camera.window] {
                Some(size) => {
                    scene.cameras[index] = Camera { size, ..camera };
                },
                None => {},
            }
        }
        index += 1;
    }
    assert(scene.cameras@ =~= tracked_cameras(windows@, old(scene).cameras@));
}

} // verus!
