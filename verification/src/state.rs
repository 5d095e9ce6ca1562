//! Application-wide context: session configuration, the deferred task
//! queue, live input poses and the overlay identity generator.

use crate::geometry::{affine_identity_spec, AffineFx, QuatFx, Vec3Fx};
use crate::overlay::OverlayID;
use crate::task::TaskContainer;
use crate::toast::{DisplayMethod, ToastFactory, ToastTopic};
use vstd::prelude::*;

verus! {

/// Identity of a mirrored physical screen.
#[derive(Debug)]
pub struct ScreenMeta {
    pub name: String,
    pub id: OverlayID,
    pub native_handle: u32,
}

/// Which hand an overlay or binding is attached to.
#[derive(Clone, Copy, Debug, PartialEq, Eq, Structural)]
pub enum LeftRight {
    Left,
    Right,
}

impl Default for LeftRight {
    fn default() -> (r: Self)
        ensures
            r == LeftRight::Left,
    {
        LeftRight::Left
    }
}

/// The configuration values the registry and producers consult.
#[derive(Debug)]
pub struct GeneralConfig {
    /// Names of screens shown on startup; when empty, the first screen is
    /// shown.
    pub show_screens: Vec<String>,
    /// Whether overlays re-center when the global toggle shows them again.
    pub realign_on_showhide: bool,
    pub notifications_sound_enabled: bool,
    /// Per-topic display-method overrides from the configuration file.
    pub notification_topics: Vec<(ToastTopic, DisplayMethod)>,
    /// Spawn position of watch-docked overlays, relative to the hand.
    pub watch_pos: Vec3Fx,
    pub watch_rot: QuatFx,
    pub watch_hand: LeftRight,
}

/// Machine limits on the configured watch pose, under which watch-docked
/// spawn poses can be computed without overflow.
pub open spec fn config_bounded(c: GeneralConfig) -> bool {
    &&& crate::geometry::vec_in_bounds(c.watch_pos, crate::geometry::FX_COORD_LIMIT as int - 1000)
    &&& -4 * crate::geometry::FX_ONE as int <= c.watch_rot.x <= 4 * crate::geometry::FX_ONE as int
    &&& -4 * crate::geometry::FX_ONE as int <= c.watch_rot.y <= 4 * crate::geometry::FX_ONE as int
    &&& -4 * crate::geometry::FX_ONE as int <= c.watch_rot.z <= 4 * crate::geometry::FX_ONE as int
    &&& -4 * crate::geometry::FX_ONE as int <= c.watch_rot.w <= 4 * crate::geometry::FX_ONE as int
}

/// Display method for a topic: the last entry for the topic wins, so later
/// configuration overrides earlier defaults; an absent topic is hidden.
pub open spec fn topic_lookup(s: Seq<(ToastTopic, DisplayMethod)>, t: ToastTopic) -> DisplayMethod
    decreases s.len(),
{
    if s.len() == 0 {
        DisplayMethod::Hide
    } else if s.last().0 == t {
        s.last().1
    } else {
        topic_lookup(s.drop_last(), t)
    }
}

/// Session state: the configuration plus the effective per-topic display
/// methods.
#[derive(Debug)]
pub struct AppSession {
    pub config: GeneralConfig,
    pub toast_topics: Vec<(ToastTopic, DisplayMethod)>,
}

impl AppSession {
    /// Builds the session from a loaded configuration: system, desktop and
    /// external notifications are centered by default, and configuration
    /// entries override the defaults.
    #[verifier::loop_isolation(false)]
    pub fn load(config: GeneralConfig) -> (r: Self)
        ensures
            r.toast_topics@ == seq![
                (ToastTopic::System, DisplayMethod::Center),
                (ToastTopic::DesktopNotification, DisplayMethod::Center),
                (ToastTopic::XSNotification, DisplayMethod::Center),
            ] + config.notification_topics@,
            r.config == config,
    {
        let mut toast_topics: Vec<(ToastTopic, DisplayMethod)> = Vec::new();
        toast_topics.push((ToastTopic::System, DisplayMethod::Center));
        toast_topics.push((ToastTopic::DesktopNotification, DisplayMethod::Center));
        toast_topics.push((ToastTopic::XSNotification, DisplayMethod::Center));
        let n = config.notification_topics.len();
        let mut i: usize = 0;
        while i < n
            invariant
                0 <= i <= n,
                n == config.notification_topics@.len(),
                toast_topics@ =~= seq![
                    (ToastTopic::System, DisplayMethod::Center),
                    (ToastTopic::DesktopNotification, DisplayMethod::Center),
                    (ToastTopic::XSNotification, DisplayMethod::Center),
                ] + config.notification_topics@.take(i as int),
            decreases n - i,
        {
            let pair = (config.notification_topics[i].0, config.notification_topics[i].1);
            toast_topics.push(pair);
            i = i + 1;
        }
        proof {
            assert(config.notification_topics@.take(n as int) =~= config.notification_topics@);
        }
        AppSession { config, toast_topics }
    }

    /// The effective display method for a topic.
    #[verifier::loop_isolation(false)]
    pub fn topic_method(&self, topic: ToastTopic) -> (m: DisplayMethod)
        ensures
            m == topic_lookup(self.toast_topics@, topic),
    {
        let n = self.toast_topics.len();
        proof {
            assert(self.toast_topics@.take(n as int) =~= self.toast_topics@);
        }
        let mut i: usize = n;
        while i > 0
            invariant
                0 <= i <= n,
                n == self.toast_topics@.len(),
                topic_lookup(self.toast_topics@, topic) == topic_lookup(
                    self.toast_topics@.take(i as int),
                    topic,
                ),
            decreases i,
        {
            i = i - 1;
            if self.toast_topics[i].0 == topic {
                proof {
                    assert(self.toast_topics@.take(i as int + 1).last()
                        == self.toast_topics@[i as int]);
                }
                return self.toast_topics[i].1;
            }
            proof {
                assert(self.toast_topics@.take(i as int + 1).drop_last() =~= self
                    .toast_topics@.take(i as int));
            }
        }
        proof {
            assert(self.toast_topics@.take(0).len() == 0);
        }
        DisplayMethod::Hide
    }
}

/// The application context handed to every registry and scheduler
/// operation: session state, the task queue, live input poses, the shared
/// anchor pose, screen identities and the overlay identity generator.
#[derive(Debug)]
pub struct AppState {
    pub session: AppSession,
    pub tasks: TaskContainer<ToastFactory>,
    pub input_hmd: AffineFx,
    pub input_hand_left: AffineFx,
    pub input_hand_right: AffineFx,
    pub anchor: AffineFx,
    pub screens: Vec<ScreenMeta>,
    pub next_id: usize,
}

impl AppState {
    /// A fresh context at the identity poses, with an empty task queue and
    /// the identity generator starting at one.
    pub fn new(session: AppSession) -> (r: Self)
        ensures
            r.session == session,
            r.tasks@ =~= Seq::<crate::task::Task<ToastFactory>>::empty(),
            r.tasks.wf(),
            r.input_hmd == affine_identity_spec(),
            r.input_hand_left == affine_identity_spec(),
            r.input_hand_right == affine_identity_spec(),
            r.anchor == affine_identity_spec(),
            r.screens@ =~= Seq::<ScreenMeta>::empty(),
            r.next_id == 1,
    {
        AppState {
            session,
            tasks: TaskContainer::new(),
            input_hmd: crate::geometry::affine_identity(),
            input_hand_left: crate::geometry::affine_identity(),
            input_hand_right: crate::geometry::affine_identity(),
            anchor: crate::geometry::affine_identity(),
            screens: Vec::new(),
            next_id: 1,
        }
    }

    /// Hands out the next overlay identity; identities are process-unique
    /// and strictly increasing, so a pending drop-by-identity task can
    /// never resolve to an entity created after it was scheduled.
    pub fn alloc_id(&mut self) -> (id: OverlayID)
        requires
            old(self).next_id < usize::MAX,
        ensures
            id == OverlayID(old(self).next_id),
            final(self).next_id == old(self).next_id + 1,
            final(self).session == old(self).session,
            final(self).tasks == old(self).tasks,
            final(self).input_hmd == old(self).input_hmd,
            final(self).input_hand_left == old(self).input_hand_left,
            final(self).input_hand_right == old(self).input_hand_right,
            final(self).anchor == old(self).anchor,
            final(self).screens == old(self).screens,
    {
        let id = OverlayID(self.next_id);
        self.next_id = self.next_id + 1;
        id
    }
}

} // verus!
