use vstd::prelude::*;
use crate::assign::{Step, image_steps, placeholder_steps, refresh_steps, target_steps};
use crate::scale::DesktopImageOptions;
use crate::screen::DisplayHandle;

verus! {

/// The desktop after the steps: each assignment makes its display show its path.
pub open spec fn apply_steps(shown: Map<DisplayHandle, Seq<char>>, steps: Seq<Step>) -> Map<
    DisplayHandle,
    Seq<char>,
>
    decreases steps.len(),
{
    if steps.len() == 0 {
        shown
    } else {
        let m = apply_steps(shown, steps.drop_last());
        match steps.last() {
            Step::SetImage { display, path, .. } => m.insert(display, path),
            Step::Pause { .. } => m,
        }
    }
}

/// What each of the displays shows, in order, as the resolver reports a picture file.
pub open spec fn reported(shown: Map<DisplayHandle, Seq<char>>, displays: Seq<DisplayHandle>) -> Seq<
    Option<Seq<char>>,
> {
    Seq::new(
        displays.len(),
        |i: int|
            if shown.contains_key(displays[i]) {
                Some(shown[displays[i]])
            } else {
                None
            },
    )
}

pub open spec fn shows_everywhere(
    shown: Map<DisplayHandle, Seq<char>>,
    displays: Seq<DisplayHandle>,
    image: Seq<char>,
) -> bool {
    forall|i: int|
        0 <= i < displays.len() ==> shown.contains_key(#[trigger] displays[i]) && shown[displays[i]]
            == image
}

pub proof fn lemma_apply_concat(shown: Map<DisplayHandle, Seq<char>>, a: Seq<Step>, b: Seq<Step>)
    ensures
        apply_steps(shown, a + b) == apply_steps(apply_steps(shown, a), b),
    decreases b.len(),
{
    if b.len() > 0 {
        assert((a + b).drop_last() == a + b.drop_last());
        lemma_apply_concat(shown, a, b.drop_last());
    } else {
        assert(a + b == a);
    }
}

proof fn lemma_targets_shown(
    shown: Map<DisplayHandle, Seq<char>>,
    image: Seq<char>,
    displays: Seq<DisplayHandle>,
    options: DesktopImageOptions,
)
    ensures
        shows_everywhere(apply_steps(shown, target_steps(image, displays, options)), displays, image),
    decreases displays.len(),
{
    if displays.len() > 0 {
        let prev = displays.drop_last();
        assert(target_steps(image, displays, options).drop_last() == target_steps(image, prev, options));
        lemma_targets_shown(shown, image, prev, options);
        assert forall|i: int| 0 <= i < displays.len() implies apply_steps(
            shown,
            target_steps(image, displays, options),
        ).contains_key(#[trigger] displays[i]) && apply_steps(
            shown,
            target_steps(image, displays, options),
        )[displays[i]] == image by {
            if i < displays.len() - 1 {
                assert(prev[i] == displays[i]);
            }
        }
    }
}

proof fn lemma_placeholders_count(
    image: Seq<char>,
    displays: Seq<DisplayHandle>,
    current: Seq<Option<Seq<char>>>,
    n: nat,
)
    requires
        n <= current.len(),
    ensures
        (forall|i: int| 0 <= i < n ==> current[i] == Some(image)) ==> placeholder_steps(
            image,
            displays,
            current,
            n,
        ).len() == n,
        (forall|i: int| 0 <= i < n ==> current[i] != Some(image)) ==> placeholder_steps(
            image,
            displays,
            current,
            n,
        ).len() == 0,
    decreases n,
{
    if n > 0 {
        lemma_placeholders_count(image, displays, current, (n - 1) as nat);
    }
}

/// Assigning the same picture twice in a row shows it on every selected
/// display both times. The second assignment finds the picture already
/// showing everywhere, so the workaround puts a placeholder on every display
/// first; the first one puts none where no display showed the picture before.
pub proof fn lemma_assign_twice(
    shown: Map<DisplayHandle, Seq<char>>,
    image: Seq<char>,
    displays: Seq<DisplayHandle>,
    options: DesktopImageOptions,
)
    ensures
        ({
            let first = apply_steps(
                shown,
                image_steps(image, displays, reported(shown, displays), options),
            );
            let second = apply_steps(
                first,
                image_steps(image, displays, reported(first, displays), options),
            );
            &&& shows_everywhere(first, displays, image)
            &&& shows_everywhere(second, displays, image)
            &&& placeholder_steps(image, displays, reported(first, displays), displays.len()).len()
                == displays.len()
            &&& (forall|i: int|
                0 <= i < displays.len() ==> reported(shown, displays)[i] != Some(image))
                ==> refresh_steps(image, displays, reported(shown, displays)).len() == 0
        }),
{
    let r0 = reported(shown, displays);
    lemma_apply_concat(shown, refresh_steps(image, displays, r0), target_steps(image, displays, options));
    lemma_targets_shown(apply_steps(shown, refresh_steps(image, displays, r0)), image, displays, options);
    let first = apply_steps(shown, image_steps(image, displays, r0, options));
    let r1 = reported(first, displays);
    lemma_apply_concat(first, refresh_steps(image, displays, r1), target_steps(image, displays, options));
    lemma_targets_shown(apply_steps(first, refresh_steps(image, displays, r1)), image, displays, options);
    assert forall|i: int| 0 <= i < displays.len() implies r1[i] == Some(image) by {
        assert(first.contains_key(displays[i]));
    }
    lemma_placeholders_count(image, displays, r1, displays.len());
    lemma_placeholders_count(image, displays, r0, displays.len());
}

} // verus!
