//! Supervision of the warm Actions Ring overlay helper.
use vstd::prelude::*;

use crate::paths::{extension, extension_of, parent, parent_of};
use crate::text::{chars_of, join_path, joined};

verus! {

/// Where the helper lies in a bundle: the names of development and release
/// bundles, and the one from before the helpers were renamed.
pub const DEV_HELPER: &'static str = "Contents/Library/LoginItems/OpenLogi Overlay Dev.app/Contents/MacOS/openlogi-overlay";

pub const HELPER: &'static str = "Contents/Library/LoginItems/OpenLogi Overlay.app/Contents/MacOS/openlogi-overlay";

pub const OLD_HELPER: &'static str = "Contents/Library/LoginItems/OpenLogiOverlay.app/Contents/MacOS/openlogi-overlay";

/// The lower-case form of an ASCII letter, any other character as it is.
pub open spec fn lowered(c: char) -> char {
    if c == 'A' {
        'a'
    } else if c == 'P' {
        'p'
    } else {
        c
    }
}

/// Whether an extension is that of a bundle, in whichever case.
pub open spec fn is_app(extension: Seq<char>) -> bool {
    extension.len() == 3 && lowered(extension[0]) == 'a' && lowered(extension[1]) == 'p' && lowered(
        extension[2],
    ) == 'p'
}

fn is_app_extension(extension: &str) -> (app: bool)
    ensures
        app == is_app(extension@),
{
    let chars: Vec<char> = chars_of(extension);
    chars.len() == 3 && (chars[0] == 'a' || chars[0] == 'A') && (chars[1] == 'p' || chars[1] == 'P')
        && (chars[2] == 'p' || chars[2] == 'P')
}

/// Whether a path is a bundle.
pub open spec fn is_bundle(path: Seq<char>) -> bool {
    extension(path) matches Some(extension) && is_app(extension)
}

/// The helpers that a path and, where it has them, the paths above it hold, at
/// most so many levels up.
pub open spec fn bundled(path: Seq<char>, levels: nat) -> Seq<Seq<char>>
    decreases levels,
{
    let own = if is_bundle(path) {
        seq![joined(path, DEV_HELPER@), joined(path, HELPER@), joined(path, OLD_HELPER@)]
    } else {
        Seq::empty()
    };
    if levels == 0 {
        own
    } else {
        match parent(path) {
            Some(above) => own + bundled(above, (levels - 1) as nat),
            None => own,
        }
    }
}

/// The overlay's images beside the agent and in the bundles around it.
pub open spec fn beside(executable: Seq<char>, suffix: Seq<char>, bundles: bool) -> Seq<Seq<char>> {
    let sibling = match parent(executable) {
        Some(directory) => seq![joined(directory, "openlogi-overlay"@ + suffix)],
        None => Seq::empty(),
    };
    if bundles {
        sibling + bundled(executable, executable.len())
    } else {
        sibling
    }
}

/// The characters of each of the texts.
pub open spec fn views(texts: Seq<String>) -> Seq<Seq<char>> {
    Seq::new(texts.len(), |i: int| texts[i]@)
}

proof fn lemma_trimmed_shrinks(path: Seq<char>)
    ensures
        crate::paths::trimmed(path).len() <= path.len(),
    decreases path.len(),
{
    if crate::paths::ends_idly(path) {
        lemma_trimmed_shrinks(path.drop_last());
    }
}

/// A parent is shorter than what is below it.
proof fn lemma_parent_shrinks(path: Seq<char>)
    ensures
        parent(path) matches Some(above) ==> above.len() < path.len(),
{
    lemma_trimmed_shrinks(path);
    let whole = crate::paths::trimmed(path);
    crate::paths::lemma_last_index(whole, '/');
    let at = crate::paths::last_index(whole, '/');
    if at > 0 {
        lemma_trimmed_shrinks(whole.take(at));
    }
    if parent(path) is Some && at == 0 {
        assert(whole.len() >= 1);
        if whole.len() == 1 {
            assert(whole[0] == '/');
            assert(whole =~= seq!['/']);
        }
    }
}

proof fn lemma_bundled_enough(path: Seq<char>, levels: nat)
    requires
        levels >= path.len(),
    ensures
        bundled(path, levels) == bundled(path, path.len()),
    decreases path.len(),
{
    lemma_parent_shrinks(path);
    if levels > 0 && path.len() > 0 {
        if parent(path) is Some {
            let above = parent(path)->0;
            lemma_bundled_enough(above, (levels - 1) as nat);
            lemma_bundled_enough(above, (path.len() - 1) as nat);
        }
    } else if levels > 0 {
        assert(parent(path) is None);
    }
}

fn push_joined(images: &mut Vec<String>, base: &str, below: &str)
    ensures
        views(final(images)@) == views(old(images)@).push(joined(base@, below@)),
{
    images.push(join_path(base, below));
    assert(views(images@) =~= views(old(images)@).push(joined(base@, below@)));
}

/// The layout-derived images of the overlay, in the order in which the launcher
/// prefers them. Whether a file is there does not matter: a process outlives the
/// file it was started from, and evicting it means recognising the path that it
/// still reports.
pub fn overlay_images_beside(executable: &str, suffix: &str, bundles: bool) -> (images: Vec<String>)
    ensures
        views(images@) == beside(executable@, suffix@, bundles),
{
    let mut images: Vec<String> = Vec::new();
    assert(views(images@) =~= Seq::<Seq<char>>::empty());
    if let Some(directory) = parent_of(executable) {
        let mut name: String = "openlogi-overlay".to_owned();
        name.append(suffix);
        push_joined(&mut images, directory.as_str(), name.as_str());
        assert(views(images@) =~= seq![joined(directory@, "openlogi-overlay"@ + suffix@)]);
    }
    if !bundles {
        return images;
    }
    let ghost sibling = views(images@);
    let mut current: String = executable.to_owned();
    assert(sibling + bundled(executable@, executable@.len()) =~= views(images@) + bundled(
        current@,
        current@.len(),
    ));
    loop
        invariant
            views(images@) + bundled(current@, current@.len()) == beside(
                executable@,
                suffix@,
                bundles,
            ),
        decreases current@.len(),
    {
        let ghost so_far = views(images@);
        let ghost own = if is_bundle(current@) {
            seq![
                joined(current@, DEV_HELPER@),
                joined(current@, HELPER@),
                joined(current@, OLD_HELPER@),
            ]
        } else {
            Seq::empty()
        };
        let app: bool = match extension_of(current.as_str()) {
            Some(extension) => is_app_extension(extension.as_str()),
            None => false,
        };
        if app {
            push_joined(&mut images, current.as_str(), DEV_HELPER);
            push_joined(&mut images, current.as_str(), HELPER);
            push_joined(&mut images, current.as_str(), OLD_HELPER);
        }
        assert(views(images@) =~= so_far + own);
        match parent_of(current.as_str()) {
            Some(above) => {
                proof {
                    lemma_parent_shrinks(current@);
                    lemma_bundled_enough(above@, (current@.len() - 1) as nat);
                    assert(bundled(current@, current@.len()) == own + bundled(
                        above@,
                        (current@.len() - 1) as nat,
                    ));
                    assert(so_far + (own + bundled(above@, above@.len())) =~= views(images@)
                        + bundled(above@, above@.len()));
                }
                current = above;
            },
            None => {
                assert(bundled(current@, current@.len()) =~= own);
                return images;
            },
        }
    }
}

/// The image to launch: the first of those whose file is there.
pub fn overlay_binary_path(images: &Vec<String>, is_file: &Vec<bool>) -> (at: Option<usize>)
    requires
        images@.len() == is_file@.len(),
    ensures
        at matches Some(i) ==> i < images@.len() && is_file@[i as int] && forall|j: int|
            0 <= j < i ==> !is_file@[j],
        at is None ==> forall|j: int| 0 <= j < is_file@.len() ==> !is_file@[j],
{
    let mut i: usize = 0;
    while i < is_file.len()
        invariant
            i <= is_file@.len() == images@.len(),
            forall|j: int| 0 <= j < i ==> !is_file@[j],
        decreases is_file@.len() - i,
    {
        if is_file[i] {
            return Some(i);
        }
        i = i + 1;
    }
    None
}

/// The places where a program of the given name may lie: one in each directory of
/// the search path.
pub fn find_on_path(directories: &Vec<String>, name: &str) -> (candidates: Vec<String>)
    ensures
        candidates@.len() == directories@.len(),
        forall|i: int|
            0 <= i < candidates@.len() ==> (#[trigger] candidates@[i])@ == joined(
                directories@[i]@,
                name@,
            ),
{
    let mut candidates: Vec<String> = Vec::new();
    let mut i: usize = 0;
    while i < directories.len()
        invariant
            i <= directories@.len(),
            candidates@.len() == i,
            forall|j: int|
                0 <= j < i ==> (#[trigger] candidates@[j])@ == joined(directories@[j]@, name@),
        decreases directories@.len() - i,
    {
        candidates.push(join_path(directories[i].as_str(), name));
        i = i + 1;
    }
    candidates
}

/// What the supervisor saw.
#[derive(Clone, Copy, Debug, PartialEq, Eq, Structural)]
pub enum SupervisorEvent {
    /// A tenant of an earlier run that said who it is.
    Superseded,
    /// A tenant of an earlier run without a record.
    SupersededAnonymously,
    /// The role is filled.
    Occupied,
    Other,
}

/// What is done about it.
#[derive(Clone, Copy, Debug, PartialEq, Eq, Structural)]
pub enum ReportAction {
    /// Ask the recorded tenant to leave.
    Evict,
    /// Look for the tenant by its image and ask it to leave.
    EvictUnidentified,
    /// Note it quietly.
    Quiet,
    /// Note it.
    Announce,
}

/// Decide what an event calls for. The anonymous verdict repeats for as long as
/// the tenant lives, and answering it walks the process table, so it is answered
/// once per spell of anonymity.
pub fn report(event: SupervisorEvent, pressed_anonymous: &mut bool) -> (action: ReportAction)
    ensures
        *final(pressed_anonymous) == (event == SupervisorEvent::SupersededAnonymously),
        action == (match event {
            SupervisorEvent::Superseded => ReportAction::Evict,
            SupervisorEvent::SupersededAnonymously => if *old(pressed_anonymous) {
                ReportAction::Quiet
            } else {
                ReportAction::EvictUnidentified
            },
            SupervisorEvent::Occupied => ReportAction::Quiet,
            SupervisorEvent::Other => ReportAction::Announce,
        }),
{
    match event {
        SupervisorEvent::Superseded => {
            *pressed_anonymous = false;
            ReportAction::Evict
        },
        SupervisorEvent::SupersededAnonymously => {
            let pressed: bool = *pressed_anonymous;
            *pressed_anonymous = true;
            if pressed {
                ReportAction::Quiet
            } else {
                ReportAction::EvictUnidentified
            }
        },
        SupervisorEvent::Occupied => {
            *pressed_anonymous = false;
            ReportAction::Quiet
        },
        SupervisorEvent::Other => {
            *pressed_anonymous = false;
            ReportAction::Announce
        },
    }
}

/// How asking the processes of one image to leave went.
#[derive(Clone, Copy, Debug, PartialEq, Eq, Structural)]
pub enum AnonymousOutcome {
    /// No process runs the image.
    NoCandidate,
    /// Several do, and none was asked.
    Ambiguous { running: usize },
    /// One was asked.
    Asked,
}

/// Which image settled the eviction of an unidentified tenant.
pub open spec fn settled_at(outcomes: Seq<AnonymousOutcome>, at: int) -> bool {
    &&& 0 <= at < outcomes.len()
    &&& outcomes[at] != AnonymousOutcome::NoCandidate
    &&& forall|j: int| 0 <= j < at ==> outcomes[j] == AnonymousOutcome::NoCandidate
}

/// Go through the outcomes of the images, in order, until one settles it: an
/// image that nobody runs is passed over. `None` where the role is held by
/// something else.
pub fn evict_unidentified_overlay(outcomes: &Vec<AnonymousOutcome>) -> (settled: Option<usize>)
    ensures
        settled matches Some(at) ==> settled_at(outcomes@, at as int),
        settled is None ==> forall|j: int|
            0 <= j < outcomes@.len() ==> outcomes@[j] == AnonymousOutcome::NoCandidate,
{
    let mut i: usize = 0;
    while i < outcomes.len()
        invariant
            i <= outcomes@.len(),
            forall|j: int| 0 <= j < i ==> outcomes@[j] == AnonymousOutcome::NoCandidate,
        decreases outcomes@.len() - i,
    {
        if outcomes[i] != AnonymousOutcome::NoCandidate {
            return Some(i);
        }
        i = i + 1;
    }
    None
}

/// How an overlay is asked to leave when the user quits the agent: at most so
/// many milliseconds until it is pressed harder, and until it is left alone.
pub const QUIT_ESCALATE_AFTER: u64 = 150;

pub const QUIT_DEADLINE: u64 = 750;

/// One spell of anonymity is answered once: while the events stay anonymous, only
/// the first looks for the tenant.
pub open spec fn looks(pressed: bool, events: Seq<SupervisorEvent>) -> nat
    decreases events.len(),
{
    if events.len() == 0 {
        0
    } else {
        let rest = looks(events[0] == SupervisorEvent::SupersededAnonymously, events.skip(1));
        if events[0] == SupervisorEvent::SupersededAnonymously && !pressed {
            rest + 1
        } else {
            rest
        }
    }
}

/// While the events stay anonymous, the process table is walked at most once.
pub proof fn a_spell_of_anonymity_is_answered_once(pressed: bool, events: Seq<SupervisorEvent>)
    requires
        forall|i: int|
            0 <= i < events.len() ==> events[i] == SupervisorEvent::SupersededAnonymously,
    ensures
        looks(pressed, events) <= 1,
        pressed ==> looks(pressed, events) == 0,
    decreases events.len(),
{
    if events.len() > 0 {
        let rest = events.skip(1);
        assert forall|i: int| 0 <= i < rest.len() implies rest[i]
            == SupervisorEvent::SupersededAnonymously by {
            assert(rest[i] == events[i + 1]);
        }
        a_spell_of_anonymity_is_answered_once(true, rest);
    }
}

/// An extension is a bundle's exactly where it spells "app", in whichever case.
pub proof fn bundles_are_apps_in_any_case(extension: Seq<char>)
    ensures
        is_app("app"@),
        is_app("APP"@),
        is_app("App"@),
        is_app(extension) <==> extension.len() == 3 && (extension[0] == 'a' || extension[0] == 'A')
            && (extension[1] == 'p' || extension[1] == 'P') && (extension[2] == 'p' || extension[2]
            == 'P'),
{
    reveal_strlit("app");
    reveal_strlit("APP");
    reveal_strlit("App");
}

/// The helper beside the agent comes first, and only bundles around the agent hold others.
pub proof fn the_sibling_comes_first(
    directory: Seq<char>,
    executable: Seq<char>,
    suffix: Seq<char>,
    bundles: bool,
)
    requires
        parent(executable) == Some(directory),
    ensures
        beside(executable, suffix, bundles).len() >= 1,
        beside(executable, suffix, bundles)[0] == joined(directory, "openlogi-overlay"@ + suffix),
        !bundles ==> beside(executable, suffix, bundles).len() == 1,
        bundles ==> beside(executable, suffix, bundles).skip(1) == bundled(
            executable,
            executable.len(),
        ),
{
    if bundles {
        assert(beside(executable, suffix, bundles).skip(1) =~= bundled(
            executable,
            executable.len(),
        ));
    }
}

/// Every bundle on the way up holds three helpers, the development one first and the one
/// of the old name last, and inner bundles come before outer ones. A directory that is no
/// bundle holds none.
pub proof fn inner_bundles_come_first(path: Seq<char>, above: Seq<char>, levels: nat)
    requires
        parent(path) == Some(above),
        levels > 0,
    ensures
        is_bundle(path) ==> bundled(path, levels) == seq![
            joined(
                path,
                "Contents/Library/LoginItems/OpenLogi Overlay Dev.app/Contents/MacOS/openlogi-overlay"@,
            ),
            joined(
                path,
                "Contents/Library/LoginItems/OpenLogi Overlay.app/Contents/MacOS/openlogi-overlay"@,
            ),
            joined(
                path,
                "Contents/Library/LoginItems/OpenLogiOverlay.app/Contents/MacOS/openlogi-overlay"@,
            ),
        ] + bundled(above, (levels - 1) as nat),
        !is_bundle(path) ==> bundled(path, levels) == bundled(above, (levels - 1) as nat),
{
    if !is_bundle(path) {
        assert(bundled(path, levels) =~= bundled(above, (levels - 1) as nat));
    }
}

/// An event that is not anonymous ends a spell: the next anonymous one looks again. A
/// tenant is looked for exactly at the first event of each spell.
pub proof fn every_spell_is_answered(pressed: bool, other: SupervisorEvent, rest: Seq<SupervisorEvent>)
    requires
        other != SupervisorEvent::SupersededAnonymously,
    ensures
        looks(pressed, seq![other] + rest) == looks(false, rest),
        looks(false, seq![SupervisorEvent::SupersededAnonymously] + rest) == 1 + looks(true, rest),
        looks(true, seq![SupervisorEvent::SupersededAnonymously] + rest) == looks(true, rest),
{
    assert((seq![other] + rest).skip(1) =~= rest);
    assert((seq![SupervisorEvent::SupersededAnonymously] + rest).skip(1) =~= rest);
}

/// An eviction is settled by the first image that somebody runs, and by no later one.
pub proof fn the_first_running_image_settles(outcomes: Seq<AnonymousOutcome>, at: int, other: int)
    requires
        settled_at(outcomes, at),
    ensures
        0 <= at < outcomes.len(),
        outcomes[at] is Asked || outcomes[at] is Ambiguous,
        0 <= other < at ==> outcomes[other] is NoCandidate,
        settled_at(outcomes, other) ==> other == at,
{
}

/// Texts are seen one by one, in order.
pub proof fn texts_are_seen_in_order(texts: Seq<String>, at: int)
    requires
        0 <= at < texts.len(),
    ensures
        views(texts).len() == texts.len(),
        views(texts)[at] == texts[at]@,
{
}

} // verus!
