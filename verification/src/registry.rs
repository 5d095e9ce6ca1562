//! The overlay registry: a handle-indexed collection of overlay entities
//! with selector-based lookup, insertion, removal and the global show/hide
//! broadcast.

use crate::geometry::{
    add_t, affine_from_translation, affine_in_bounds, affine_mul, lemma_mat_vec_t_bound,
    lemma_mul_bounds, lemma_sq_nonneg, lemma_sqrt_nat_bounds, lemma_trunc_div_exact, len_t,
    mat_vec_cols, mat_vec_t, norm_sq_t, pose_t, snap_upright, snap_upright_t, vec_ints, world_up,
    world_up_spec, AffineFx, Vec3Fx, FX_COORD_LIMIT, FX_ONE,
};
use crate::overlay::{
    reset_base, state_bounded, watch_name, watch_name_spec, OverlayData, OverlayID, OverlayState,
};
use crate::state::AppState;
use vstd::prelude::*;

verus! {

/// A reference to an overlay, by stable numeric identity or by display
/// name; producers use selectors so that they never hold live references.
#[derive(Debug, Clone)]
pub enum OverlaySelector {
    Id(OverlayID),
    Name(String),
}

/// The mathematical content of a selector: the identity, or the name as a
/// character sequence.
pub enum SelectorView {
    Id(OverlayID),
    Name(Seq<char>),
}

impl View for OverlaySelector {
    type V = SelectorView;

    open spec fn view(&self) -> SelectorView {
        match self {
            OverlaySelector::Id(id) => SelectorView::Id(*id),
            OverlaySelector::Name(n) => SelectorView::Name(n@),
        }
    }
}

/// Whether an entity answers to a selector: exact identity for `Id`,
/// display-name equality for `Name`.
pub open spec fn sel_matches<B>(o: OverlayData<B>, sel: SelectorView) -> bool {
    match sel {
        SelectorView::Id(id) => o.state.id == id,
        SelectorView::Name(n) => o.state.name@ == n,
    }
}

pub open spec fn has_match<B>(s: Seq<OverlayData<B>>, sel: SelectorView) -> bool {
    exists|i: int| 0 <= i < s.len() && sel_matches(s[i], sel)
}

/// Index of the first entity answering to a selector, or the length of the
/// sequence when none does.
pub open spec fn first_match<B>(s: Seq<OverlayData<B>>, sel: SelectorView) -> int
    decreases s.len(),
{
    if s.len() == 0 {
        0
    } else if sel_matches(s[0], sel) {
        0
    } else {
        1 + first_match(s.drop_first(), sel)
    }
}

/// Characterization of `first_match`: it is the smallest matching index,
/// and equals the length when nothing matches.
pub proof fn lemma_first_match<B>(s: Seq<OverlayData<B>>, sel: SelectorView)
    ensures
        !has_match(s, sel) ==> first_match(s, sel) == s.len(),
        has_match(s, sel) ==> {
            &&& 0 <= first_match(s, sel) < s.len()
            &&& sel_matches(s[first_match(s, sel)], sel)
        },
        forall|j: int| 0 <= j < first_match(s, sel) && j < s.len() ==> !sel_matches(s[j], sel),
    decreases s.len(),
{
    if s.len() == 0 {
    } else if sel_matches(s[0], sel) {
    } else {
        let t = s.drop_first();
        lemma_first_match(t, sel);
        assert(forall|i: int| 0 <= i < t.len() ==> t[i] == s[i + 1]);
        if has_match(s, sel) {
            let i = choose|i: int| 0 <= i < s.len() && sel_matches(s[i], sel);
            assert(sel_matches(t[i - 1], sel));
            assert(has_match(t, sel));
        }
        if has_match(t, sel) {
            let i = choose|i: int| 0 <= i < t.len() && sel_matches(t[i], sel);
            assert(sel_matches(s[i + 1], sel));
            assert(has_match(s, sel));
        }
        assert forall|j: int|
            0 <= j < first_match(s, sel) && j < s.len() implies !sel_matches(s[j], sel) by {
            if j > 0 {
                assert(t[j - 1] == s[j]);
                assert(!sel_matches(t[j - 1], sel));
            }
        }
    }
}

/// Registry insertion: an entity whose identity is already present
/// replaces the old entry in place; a fresh identity is appended.
pub open spec fn insert_spec<B>(s: Seq<OverlayData<B>>, o: OverlayData<B>) -> Seq<OverlayData<B>> {
    let sel = SelectorView::Id(o.state.id);
    if has_match(s, sel) {
        s.update(first_match(s, sel), o)
    } else {
        s.push(o)
    }
}

/// Registry removal: the first entity answering to the selector leaves the
/// sequence; a selector with no match leaves it unchanged.
pub open spec fn remove_spec<B>(s: Seq<OverlayData<B>>, sel: SelectorView) -> Seq<OverlayData<B>> {
    if has_match(s, sel) {
        s.remove(first_match(s, sel))
    } else {
        s
    }
}

/// Every entity's identity is below the generator's next value, so a
/// freshly allocated identity never collides with a live entity.
pub open spec fn ids_below<B>(s: Seq<OverlayData<B>>, bound: usize) -> bool {
    forall|i: int| 0 <= i < s.len() ==> (#[trigger] s[i].state.id).0 < bound
}

/// The number of entities answering to a selector.
pub open spec fn count_matches<B>(s: Seq<OverlayData<B>>, sel: SelectorView) -> int
    decreases s.len(),
{
    if s.len() == 0 {
        0
    } else {
        count_matches(s.drop_last(), sel) + if sel_matches(s.last(), sel) {
            1int
        } else {
            0int
        }
    }
}

/// A selector with no matches matches nothing anywhere in the sequence.
pub proof fn lemma_count_matches_zero<B>(s: Seq<OverlayData<B>>, sel: SelectorView)
    requires
        count_matches(s, sel) == 0,
    ensures
        !has_match(s, sel),
    decreases s.len(),
{
    if s.len() > 0 {
        let t = s.drop_last();
        assert(count_matches(t, sel) >= 0) by {
            lemma_count_matches_nonneg(t, sel);
        }
        lemma_count_matches_zero(t, sel);
        if has_match(s, sel) {
            let i = choose|i: int| 0 <= i < s.len() && sel_matches(s[i], sel);
            if i < s.len() - 1 {
                assert(t[i] == s[i]);
                assert(has_match(t, sel));
            }
        }
    }
}

pub proof fn lemma_count_matches_nonneg<B>(s: Seq<OverlayData<B>>, sel: SelectorView)
    ensures
        count_matches(s, sel) >= 0,
    decreases s.len(),
{
    if s.len() > 0 {
        lemma_count_matches_nonneg(s.drop_last(), sel);
    }
}

/// Appending an entity adds its matches to the count.
pub proof fn lemma_count_matches_push<B>(s: Seq<OverlayData<B>>, sel: SelectorView, d: OverlayData<B>)
    ensures
        count_matches(s.push(d), sel) == count_matches(s, sel) + if sel_matches(d, sel) {
            1int
        } else {
            0int
        },
{
    assert(s.push(d).drop_last() =~= s);
    assert(s.push(d).last() == d);
}

/// Whether an entity answers to a drop task's selector and is old enough
/// for it.  A name selector only matches entities created strictly before
/// the task's enqueue epoch, so an eager drop-by-name clears stale
/// instances without racing a same-frame creation; an identity selector
/// is already precise, since identities are never reused.
pub open spec fn stale_matches<B>(o: OverlayData<B>, sel: SelectorView, epoch: u64) -> bool {
    match sel {
        SelectorView::Id(_) => sel_matches(o, sel),
        SelectorView::Name(_) => sel_matches(o, sel) && o.state.birth_epoch < epoch,
    }
}

pub open spec fn has_stale_match<B>(s: Seq<OverlayData<B>>, sel: SelectorView, epoch: u64) -> bool {
    exists|i: int| 0 <= i < s.len() && stale_matches(s[i], sel, epoch)
}

/// Index of the first stale match, or the length when there is none.
pub open spec fn first_stale_match<B>(s: Seq<OverlayData<B>>, sel: SelectorView, epoch: u64) -> int
    decreases s.len(),
{
    if s.len() == 0 {
        0
    } else if stale_matches(s[0], sel, epoch) {
        0
    } else {
        1 + first_stale_match(s.drop_first(), sel, epoch)
    }
}

pub proof fn lemma_first_stale_match<B>(s: Seq<OverlayData<B>>, sel: SelectorView, epoch: u64)
    ensures
        !has_stale_match(s, sel, epoch) ==> first_stale_match(s, sel, epoch) == s.len(),
        has_stale_match(s, sel, epoch) ==> {
            &&& 0 <= first_stale_match(s, sel, epoch) < s.len()
            &&& stale_matches(s[first_stale_match(s, sel, epoch)], sel, epoch)
        },
        forall|j: int|
            0 <= j < first_stale_match(s, sel, epoch) && j < s.len() ==> !stale_matches(
                s[j],
                sel,
                epoch,
            ),
    decreases s.len(),
{
    if s.len() == 0 {
    } else if stale_matches(s[0], sel, epoch) {
    } else {
        let t = s.drop_first();
        lemma_first_stale_match(t, sel, epoch);
        assert(forall|i: int| 0 <= i < t.len() ==> t[i] == s[i + 1]);
        if has_stale_match(s, sel, epoch) {
            let i = choose|i: int| 0 <= i < s.len() && stale_matches(s[i], sel, epoch);
            assert(stale_matches(t[i - 1], sel, epoch));
            assert(has_stale_match(t, sel, epoch));
        }
        if has_stale_match(t, sel, epoch) {
            let i = choose|i: int| 0 <= i < t.len() && stale_matches(t[i], sel, epoch);
            assert(stale_matches(s[i + 1], sel, epoch));
            assert(has_stale_match(s, sel, epoch));
        }
        assert forall|j: int|
            0 <= j < first_stale_match(s, sel, epoch) && j < s.len() implies !stale_matches(
            s[j],
            sel,
            epoch,
        ) by {
            if j > 0 {
                assert(t[j - 1] == s[j]);
                assert(!stale_matches(t[j - 1], sel, epoch));
            }
        }
    }
}

/// Epoch-aware removal: the first entity that matches the selector and is
/// older than the epoch leaves; everything else, including same-frame and
/// newer matches, is spared.
pub open spec fn remove_stale_spec<B>(s: Seq<OverlayData<B>>, sel: SelectorView, epoch: u64) -> Seq<
    OverlayData<B>,
> {
    if has_stale_match(s, sel, epoch) {
        s.remove(first_stale_match(s, sel, epoch))
    } else {
        s
    }
}

/// No two entities share an identity.
pub open spec fn ids_unique<B>(s: Seq<OverlayData<B>>) -> bool {
    forall|i: int, j: int| 0 <= i < j < s.len() ==> s[i].state.id != s[j].state.id
}

/// Insertion keeps identities unique.
pub proof fn lemma_insert_ids_unique<B>(s: Seq<OverlayData<B>>, o: OverlayData<B>)
    requires
        ids_unique(s),
    ensures
        ids_unique(insert_spec(s, o)),
{
    let sel = SelectorView::Id(o.state.id);
    lemma_first_match(s, sel);
    let r = insert_spec(s, o);
    if has_match(s, sel) {
        let fm = first_match(s, sel);
        assert(s[fm].state.id == o.state.id);
        assert forall|a: int, b: int| 0 <= a < b < r.len() implies r[a].state.id != r[b].state.id by {
            if a == fm {
                assert(r[b] == s[b] && s[fm].state.id != s[b].state.id);
            } else if b == fm {
                assert(r[a] == s[a] && s[a].state.id != s[fm].state.id);
            }
        }
    } else {
        assert forall|a: int, b: int| 0 <= a < b < r.len() implies r[a].state.id != r[b].state.id by {
            if b == s.len() {
                assert(!sel_matches(s[a], sel));
            }
        }
    }
}

/// Removing any one entity keeps identities unique.
pub proof fn lemma_remove_ids_unique<B>(s: Seq<OverlayData<B>>, i: int)
    requires
        ids_unique(s),
        0 <= i < s.len(),
    ensures
        ids_unique(s.remove(i)),
{
    let r = s.remove(i);
    assert forall|a: int, b: int| 0 <= a < b < r.len() implies r[a].state.id != r[b].state.id by {
        let a0 = if a < i { a } else { a + 1 };
        let b0 = if b < i { b } else { b + 1 };
        assert(r[a] == s[a0] && r[b] == s[b0]);
    }
}

/// The handle-indexed collection of live overlay entities.  Entities keep
/// their insertion order; name lookups resolve to the first entity whose
/// display name matches.
#[derive(Debug)]
pub struct OverlayContainer<B> {
    overlays: Vec<OverlayData<B>>,
}

impl<B> View for OverlayContainer<B> {
    type V = Seq<OverlayData<B>>;

    closed spec fn view(&self) -> Seq<OverlayData<B>> {
        self.overlays@
    }
}

impl<B> OverlayContainer<B> {
    /// A registry holding no entities.
    pub fn empty() -> (r: Self)
        ensures
            r@ =~= Seq::<OverlayData<B>>::empty(),
    {
        OverlayContainer { overlays: Vec::new() }
    }

    pub fn len(&self) -> (n: usize)
        ensures
            n == self@.len(),
    {
        self.overlays.len()
    }

    /// Builds the initial registry: the mirrored screens (those selected
    /// by the configuration join the show/hide group, and when the
    /// configuration selects none the first screen does), the anchor
    /// panel, the watch panel forced visible, and the keyboard, hidden,
    /// joining the group when selected.  The screens' identities are
    /// recorded in the application context.
    #[verifier::loop_isolation(false)]
    pub fn new(
        app: &mut AppState,
        screens: Vec<(crate::state::ScreenMeta, OverlayData<B>)>,
        anchor: OverlayData<B>,
        watch: OverlayData<B>,
        keyboard: OverlayData<B>,
    ) -> (r: Self)
        ensures
            r@.len() == screens@.len() + 3,
            forall|i: int|
                0 <= i < screens@.len() ==> #[trigger] r@[i] == (OverlayData {
                    state: OverlayState {
                        show_hide: screens@[i].1.state.show_hide || screen_shown_spec(
                            old(app).session.config.show_screens@,
                            screens@,
                            screens@[i].1.state.name@,
                        ),
                        ..screens@[i].1.state
                    },
                    ..screens@[i].1
                }),
            r@[screens@.len() as int] == anchor,
            r@[screens@.len() as int + 1] == (OverlayData {
                state: OverlayState { want_visible: true, ..watch.state },
                ..watch
            }),
            r@[screens@.len() as int + 2] == (OverlayData {
                state: OverlayState {
                    show_hide: screen_shown_spec(
                        old(app).session.config.show_screens@,
                        screens@,
                        crate::overlay::keyboard_name_spec(),
                    ),
                    want_visible: false,
                    ..keyboard.state
                },
                ..keyboard
            }),
            final(app).screens@ == old(app).screens@ + screens@.map_values(
                |p: (crate::state::ScreenMeta, OverlayData<B>)| p.0,
            ),
            final(app).session == old(app).session,
            final(app).tasks == old(app).tasks,
            final(app).input_hmd == old(app).input_hmd,
            final(app).input_hand_left == old(app).input_hand_left,
            final(app).input_hand_right == old(app).input_hand_right,
            final(app).anchor == old(app).anchor,
            final(app).next_id == old(app).next_id,
    {
        let ghost screens0 = screens@;
        let cfg_empty = app.session.config.show_screens.is_empty();
        let first_name: Option<String> = if cfg_empty && screens.len() > 0 {
            Some(screens[0].1.state.name.clone())
        } else {
            None
        };
        let mut screens = screens;
        let mut overlays: Vec<OverlayData<B>> = Vec::new();
        let ghost metas0 = old(app).screens@;
        while screens.len() > 0
            invariant
                overlays@.len() + screens@.len() == screens0.len(),
                screens@ =~= screens0.skip(overlays@.len() as int),
                forall|j: int|
                    0 <= j < overlays@.len() ==> #[trigger] overlays@[j] == (OverlayData {
                        state: OverlayState {
                            show_hide: screens0[j].1.state.show_hide || screen_shown_spec(
                                old(app).session.config.show_screens@,
                                screens0,
                                screens0[j].1.state.name@,
                            ),
                            ..screens0[j].1.state
                        },
                        ..screens0[j].1
                    }),
                app.screens@ =~= metas0 + screens0.take(overlays@.len() as int).map_values(
                    |p: (crate::state::ScreenMeta, OverlayData<B>)| p.0,
                ),
                app.session == old(app).session,
                app.tasks == old(app).tasks,
                app.input_hmd == old(app).input_hmd,
                app.input_hand_left == old(app).input_hand_left,
                app.input_hand_right == old(app).input_hand_right,
                app.anchor == old(app).anchor,
                app.next_id == old(app).next_id,
                (match first_name {
                    Some(fnm) => cfg_empty && screens0.len() > 0 && fnm@ == screens0[0].1.state.name@,
                    None => !(cfg_empty && screens0.len() > 0),
                }),
                cfg_empty == (old(app).session.config.show_screens@.len() == 0),
            decreases screens@.len(),
        {
            let ghost k = overlays@.len() as int;
            let (meta, data) = screens.remove(0);
            let mut data = data;
            proof {
                assert(screens0.skip(k)[0] == screens0[k]);
            }
            let in_cfg = contains_name(&app.session.config.show_screens, &data.state.name);
            let is_first = match &first_name {
                Some(fnm) => data.state.name == *fnm,
                None => false,
            };
            if in_cfg || is_first {
                data.state.show_hide = true;
            }
            overlays.push(data);
            app.screens.push(meta);
            proof {
                assert(screens0.take(k + 1).map_values(
                    |p: (crate::state::ScreenMeta, OverlayData<B>)| p.0,
                ) =~= screens0.take(k).map_values(
                    |p: (crate::state::ScreenMeta, OverlayData<B>)| p.0,
                ).push(screens0[k].0));
            }
        }
        overlays.push(anchor);
        let mut watch = watch;
        watch.state.want_visible = true;
        overlays.push(watch);
        let kbd_key: String = crate::overlay::keyboard_name().to_owned();
        let kbd_in_cfg = contains_name(&app.session.config.show_screens, &kbd_key);
        let kbd_is_first = match &first_name {
            Some(fnm) => *fnm == kbd_key,
            None => false,
        };
        let mut keyboard = keyboard;
        keyboard.state.show_hide = kbd_in_cfg || kbd_is_first;
        keyboard.state.want_visible = false;
        overlays.push(keyboard);
        proof {
            assert(screens0.take(screens0.len() as int) =~= screens0);
        }
        OverlayContainer { overlays }
    }

    #[verifier::loop_isolation(false)]
    fn index_of_id(&self, id: OverlayID) -> (r: Option<usize>)
        ensures
            match r {
                Some(i) => {
                    &&& has_match(self@, SelectorView::Id(id))
                    &&& i == first_match(self@, SelectorView::Id(id))
                    &&& i < self@.len()
                    &&& sel_matches(self@[i as int], SelectorView::Id(id))
                },
                None => !has_match(self@, SelectorView::Id(id)),
            },
    {
        let ghost sel = SelectorView::Id(id);
        let n = self.overlays.len();
        let mut i: usize = 0;
        while i < n
            invariant
                0 <= i <= n,
                n == self@.len(),
                forall|j: int| 0 <= j < i ==> !sel_matches(self@[j], sel),
            decreases n - i,
        {
            if self.overlays[i].state.id == id {
                proof {
                    assert(sel_matches(self@[i as int], sel));
                    lemma_first_match(self@, sel);
                    assert(first_match(self@, sel) >= i);
                    assert(first_match(self@, sel) <= i);
                }
                return Some(i);
            }
            i = i + 1;
        }
        None
    }

    #[verifier::loop_isolation(false)]
    fn index_of_name(&self, name: &String) -> (r: Option<usize>)
        ensures
            match r {
                Some(i) => {
                    &&& has_match(self@, SelectorView::Name(name@))
                    &&& i == first_match(self@, SelectorView::Name(name@))
                    &&& i < self@.len()
                    &&& sel_matches(self@[i as int], SelectorView::Name(name@))
                },
                None => !has_match(self@, SelectorView::Name(name@)),
            },
    {
        let ghost sel = SelectorView::Name(name@);
        let n = self.overlays.len();
        let mut i: usize = 0;
        while i < n
            invariant
                0 <= i <= n,
                n == self@.len(),
                forall|j: int| 0 <= j < i ==> !sel_matches(self@[j], sel),
            decreases n - i,
        {
            if self.overlays[i].state.name == *name {
                proof {
                    assert(sel_matches(self@[i as int], sel));
                    lemma_first_match(self@, sel);
                    assert(first_match(self@, sel) >= i);
                    assert(first_match(self@, sel) <= i);
                }
                return Some(i);
            }
            i = i + 1;
        }
        None
    }

    /// Inserts an entity keyed by its identity; an entity with the same
    /// identity is replaced in place.  Identities are generator-assigned,
    /// so replacement does not occur in correct use.
    pub fn add(&mut self, overlay: OverlayData<B>)
        ensures
            final(self)@ == insert_spec(old(self)@, overlay),
            ids_unique(old(self)@) ==> ids_unique(final(self)@),
    {
        proof {
            if ids_unique(self@) {
                lemma_insert_ids_unique(self@, overlay);
            }
        }
        let idx = self.index_of_id(overlay.state.id);
        match idx {
            Some(i) => {
                let slot = &mut self.overlays[i];
                *slot = overlay;
            },
            None => {
                self.overlays.push(overlay);
            },
        }
    }

    /// Whether any entity answers to the selector.
    pub fn contains(&self, selector: &OverlaySelector) -> (r: bool)
        ensures
            r == has_match(self@, selector@),
    {
        let idx = match selector {
            OverlaySelector::Id(id) => self.index_of_id(*id),
            OverlaySelector::Name(name) => self.index_of_name(name),
        };
        idx.is_some()
    }

    /// Read access by identity; absence is an expected outcome and comes
    /// back as `None`.
    pub fn get_by_id(&self, id: OverlayID) -> (r: Option<&OverlayData<B>>)
        ensures
            match r {
                Some(o) => has_match(self@, SelectorView::Id(id)) && *o == self@[first_match(
                    self@,
                    SelectorView::Id(id),
                )],
                None => !has_match(self@, SelectorView::Id(id)),
            },
    {
        match self.index_of_id(id) {
            Some(i) => Some(&self.overlays[i]),
            None => None,
        }
    }

    /// Write access by identity.
    pub fn mut_by_id(&mut self, id: OverlayID) -> (r: Option<&mut OverlayData<B>>)
        ensures
            match r {
                Some(m) => {
                    &&& has_match(old(self)@, SelectorView::Id(id))
                    &&& *m == old(self)@[first_match(old(self)@, SelectorView::Id(id))]
                    &&& final(self)@ == old(self)@.update(
                        first_match(old(self)@, SelectorView::Id(id)),
                        *final(m),
                    )
                },
                None => !has_match(old(self)@, SelectorView::Id(id)) && final(self)@ == old(
                    self,
                )@,
            },
    {
        match self.index_of_id(id) {
            Some(i) => Some(&mut self.overlays[i]),
            None => None,
        }
    }

    /// Read access to the first entity with the given display name.
    pub fn get_by_name(&self, name: &str) -> (r: Option<&OverlayData<B>>)
        ensures
            match r {
                Some(o) => has_match(self@, SelectorView::Name(name@)) && *o == self@[first_match(
                    self@,
                    SelectorView::Name(name@),
                )],
                None => !has_match(self@, SelectorView::Name(name@)),
            },
    {
        let key: String = name.to_owned();
        match self.index_of_name(&key) {
            Some(i) => Some(&self.overlays[i]),
            None => None,
        }
    }

    /// Write access to the first entity with the given display name.
    pub fn mut_by_name(&mut self, name: &str) -> (r: Option<&mut OverlayData<B>>)
        ensures
            match r {
                Some(m) => {
                    &&& has_match(old(self)@, SelectorView::Name(name@))
                    &&& *m == old(self)@[first_match(old(self)@, SelectorView::Name(name@))]
                    &&& final(self)@ == old(self)@.update(
                        first_match(old(self)@, SelectorView::Name(name@)),
                        *final(m),
                    )
                },
                None => !has_match(old(self)@, SelectorView::Name(name@)) && final(self)@ == old(
                    self,
                )@,
            },
    {
        let key: String = name.to_owned();
        match self.index_of_name(&key) {
            Some(i) => Some(&mut self.overlays[i]),
            None => None,
        }
    }

    /// Resolves a selector to write access: identity lookup for `Id`,
    /// first-name-match lookup for `Name`.
    pub fn mut_by_selector(&mut self, selector: &OverlaySelector) -> (r: Option<
        &mut OverlayData<B>,
    >)
        ensures
            match r {
                Some(m) => {
                    &&& has_match(old(self)@, selector@)
                    &&& *m == old(self)@[first_match(old(self)@, selector@)]
                    &&& final(self)@ == old(self)@.update(
                        first_match(old(self)@, selector@),
                        *final(m),
                    )
                },
                None => !has_match(old(self)@, selector@) && final(self)@ == old(self)@,
            },
    {
        let idx = match selector {
            OverlaySelector::Id(id) => self.index_of_id(*id),
            OverlaySelector::Name(name) => self.index_of_name(name),
        };
        match idx {
            Some(i) => Some(&mut self.overlays[i]),
            None => None,
        }
    }

    /// Removes the entity the selector resolves to and transfers its
    /// ownership to the caller, or returns `None` when the selector does
    /// not resolve.
    pub fn remove_by_selector(&mut self, selector: &OverlaySelector) -> (r: Option<OverlayData<B>>)
        ensures
            final(self)@ == remove_spec(old(self)@, selector@),
            match r {
                Some(o) => has_match(old(self)@, selector@) && o == old(self)@[first_match(
                    old(self)@,
                    selector@,
                )],
                None => !has_match(old(self)@, selector@),
            },
            ids_unique(old(self)@) ==> ids_unique(final(self)@),
    {
        let idx = match selector {
            OverlaySelector::Id(id) => self.index_of_id(*id),
            OverlaySelector::Name(name) => self.index_of_name(name),
        };
        match idx {
            Some(i) => {
                proof {
                    if ids_unique(self@) {
                        lemma_remove_ids_unique(self@, i as int);
                    }
                }
                Some(self.overlays.remove(i))
            },
            None => None,
        }
    }

    /// Removes the entity the selector resolves to, provided it was
    /// created strictly before the given epoch; a drop task passes its
    /// enqueue epoch here so that it never destroys an entity created in
    /// its own frame or later.
    #[verifier::loop_isolation(false)]
    pub fn remove_stale_by_selector(&mut self, selector: &OverlaySelector, epoch: u64) -> (r:
        Option<OverlayData<B>>)
        ensures
            final(self)@ == remove_stale_spec(old(self)@, selector@, epoch),
            match r {
                Some(o) => has_stale_match(old(self)@, selector@, epoch) && o == old(
                    self,
                )@[first_stale_match(old(self)@, selector@, epoch)],
                None => !has_stale_match(old(self)@, selector@, epoch),
            },
            ids_unique(old(self)@) ==> ids_unique(final(self)@),
    {
        let ghost sel = selector@;
        let n = self.overlays.len();
        let mut i: usize = 0;
        while i < n
            invariant
                0 <= i <= n,
                n == self@.len(),
                self@ == old(self)@,
                forall|j: int| 0 <= j < i ==> !stale_matches(self@[j], sel, epoch),
            decreases n - i,
        {
            let matched = match selector {
                OverlaySelector::Id(id) => self.overlays[i].state.id == *id,
                OverlaySelector::Name(name) => self.overlays[i].state.name == *name
                    && self.overlays[i].state.birth_epoch < epoch,
            };
            if matched {
                proof {
                    assert(stale_matches(self@[i as int], sel, epoch));
                    lemma_first_stale_match(self@, sel, epoch);
                    assert(first_stale_match(self@, sel, epoch) >= i);
                    assert(first_stale_match(self@, sel, epoch) <= i);
                    if ids_unique(self@) {
                        lemma_remove_ids_unique(self@, i as int);
                    }
                }
                return Some(self.overlays.remove(i));
            }
            i = i + 1;
        }
        None
    }

    /// The live entities in insertion order, for per-frame traversal; the
    /// render order is applied by the consumer.
    pub fn iter(&self) -> (r: &Vec<OverlayData<B>>)
        ensures
            r@ == self@,
    {
        &self.overlays
    }

    /// Mutable traversal of the live entities.
    pub fn iter_mut(&mut self) -> (r: &mut Vec<OverlayData<B>>)
        ensures
            r@ == old(self)@,
            final(self)@ == final(r)@,
    {
        &mut self.overlays
    }

    /// Whether any member of the show/hide group is currently visible.
    #[verifier::loop_isolation(false)]
    fn any_visible_in_group(&self) -> (r: bool)
        ensures
            r == any_shown(self@),
    {
        let n = self.overlays.len();
        let mut i: usize = 0;
        while i < n
            invariant
                0 <= i <= n,
                forall|j: int|
                    0 <= j < i ==> !(self@[j].state.show_hide && self@[j].state.want_visible),
            decreases n - i,
        {
            if self.overlays[i].state.show_hide && self.overlays[i].state.want_visible {
                return true;
            }
            i = i + 1;
        }
        false
    }

    /// The global visibility toggle: when the group is visible it is
    /// hidden; when nothing in the group is visible, the anchor is
    /// re-derived from the upright-snapped head pose, the group is shown
    /// (re-centering the members that ask for it) and the watch panel is
    /// force-reset to visible, so the user always regains at least one
    /// interactive surface.
    #[verifier::loop_isolation(false)]
    pub fn show_hide(&mut self, app: &mut AppState)
        requires
            forall|i: int| 0 <= i < old(self)@.len() ==> state_bounded(old(self)@[i].state),
            affine_in_bounds(old(app).input_hmd, 0x100_0000),
            affine_in_bounds(old(app).input_hand_left, FX_COORD_LIMIT as int),
            affine_in_bounds(old(app).input_hand_right, FX_COORD_LIMIT as int),
            affine_in_bounds(old(app).anchor, FX_COORD_LIMIT as int),
        ensures
            final(self)@.len() == old(self)@.len(),
            final(app).session == old(app).session,
            final(app).tasks == old(app).tasks,
            final(app).input_hmd == old(app).input_hmd,
            final(app).input_hand_left == old(app).input_hand_left,
            final(app).input_hand_right == old(app).input_hand_right,
            final(app).screens == old(app).screens,
            final(app).next_id == old(app).next_id,
            any_shown(old(self)@) ==> final(app).anchor == old(app).anchor,
            !any_shown(old(self)@) ==> {
                let a = anchor_pose_t(old(app).input_hmd);
                &&& vec_ints(final(app).anchor.x_axis) == a.0
                &&& vec_ints(final(app).anchor.y_axis) == a.1
                &&& vec_ints(final(app).anchor.z_axis) == a.2
                &&& vec_ints(final(app).anchor.translation) == a.3
            },
            forall|i: int|
                0 <= i < old(self)@.len() ==> toggled_entry(
                    old(self)@[i],
                    #[trigger] final(self)@[i],
                    any_shown(old(self)@),
                    *final(app),
                ),
    {
        let any = self.any_visible_in_group();
        if !any {
            let snapped = snap_upright(app.input_hmd, world_up());
            proof {
                let hx = vec_ints(app.input_hmd.x_axis);
                let norm = norm_sq_t(hx);
                lemma_sq_nonneg(hx.0);
                lemma_sq_nonneg(hx.1);
                lemma_sq_nonneg(hx.2);
                lemma_mul_bounds(hx.0, hx.0, 0x100_0000, 0x100_0000);
                lemma_mul_bounds(hx.1, hx.1, 0x100_0000, 0x100_0000);
                lemma_mul_bounds(hx.2, hx.2, 0x100_0000, 0x100_0000);
                lemma_sqrt_nat_bounds(norm as nat);
                let len = len_t(hx);
                assert(len <= 0x200_0000) by (nonlinear_arith)
                    requires
                        len * len <= norm,
                        norm <= 3 * (0x100_0000 * 0x100_0000),
                        len >= 0,
                ;
                assert(affine_in_bounds(snapped, 0x200_0000));
            }
            let local = affine_from_translation(Vec3Fx { x: 0, y: 0, z: -FX_ONE });
            let next_anchor = affine_mul(snapped, local);
            proof {
                lemma_trunc_div_exact(vec_ints(snapped.x_axis).0, FX_ONE as int);
                lemma_trunc_div_exact(vec_ints(snapped.x_axis).1, FX_ONE as int);
                lemma_trunc_div_exact(vec_ints(snapped.x_axis).2, FX_ONE as int);
                lemma_trunc_div_exact(vec_ints(snapped.y_axis).0, FX_ONE as int);
                lemma_trunc_div_exact(vec_ints(snapped.y_axis).1, FX_ONE as int);
                lemma_trunc_div_exact(vec_ints(snapped.y_axis).2, FX_ONE as int);
                lemma_trunc_div_exact(vec_ints(snapped.z_axis).0, FX_ONE as int);
                lemma_trunc_div_exact(vec_ints(snapped.z_axis).1, FX_ONE as int);
                lemma_trunc_div_exact(vec_ints(snapped.z_axis).2, FX_ONE as int);
                lemma_mat_vec_t_bound(
                    snapped,
                    (0, 0, -(FX_ONE as int)),
                    0x200_0000,
                    FX_ONE as int,
                    3 * 0x200_0000 as int,
                );
                assert(affine_in_bounds(next_anchor, FX_COORD_LIMIT as int));
            }
            app.anchor = next_anchor;
        }
        let realign = app.session.config.realign_on_showhide;
        let watch_key: String = watch_name().to_owned();
        let n = self.overlays.len();
        let mut i: usize = 0;
        while i < n
            invariant
                0 <= i <= n,
                self@.len() == n,
                affine_in_bounds(app.anchor, FX_COORD_LIMIT as int),
                forall|j: int|
                    0 <= j < i ==> toggled_entry(
                        old(self)@[j],
                        #[trigger] self@[j],
                        any,
                        *app,
                    ),
                forall|j: int| i <= j < n ==> self@[j] == old(self)@[j],
            decreases n - i,
        {
            let e = &mut self.overlays[i];
            if e.state.show_hide {
                e.state.want_visible = !any;
                if !any && realign && e.state.recenter {
                    e.state.reset(app, false);
                }
            }
            if !any && e.state.name == watch_key {
                e.state.reset(app, true);
            }
            proof {
                assert(toggled_entry(old(self)@[i as int], self@[i as int], any, *app));
            }
            i = i + 1;
        }
    }
}

/// Whether a name occurs in a list of names.
pub open spec fn contains_str(names: Seq<String>, n: Seq<char>) -> bool {
    exists|i: int| 0 <= i < names.len() && names[i]@ == n
}

#[verifier::loop_isolation(false)]
fn contains_name(names: &Vec<String>, name: &String) -> (r: bool)
    ensures
        r == contains_str(names@, name@),
{
    let n = names.len();
    let mut i: usize = 0;
    while i < n
        invariant
            0 <= i <= n,
            forall|j: int| 0 <= j < i ==> names@[j]@ != name@,
        decreases n - i,
    {
        if names[i] == *name {
            return true;
        }
        i = i + 1;
    }
    false
}

/// Whether a screen of the given name starts out as a member of the
/// show/hide group: it is named in the configuration, or the configuration
/// names no screen and it is the first one.
pub open spec fn screen_shown_spec<B>(
    cfg: Seq<String>,
    screens: Seq<(crate::state::ScreenMeta, OverlayData<B>)>,
    n: Seq<char>,
) -> bool {
    ||| contains_str(cfg, n)
    ||| (cfg.len() == 0 && screens.len() > 0 && screens[0].1.state.name@ == n)
}

/// Whether any member of the show/hide group is visible.
pub open spec fn any_shown<B>(s: Seq<OverlayData<B>>) -> bool {
    exists|i: int| 0 <= i < s.len() && s[i].state.show_hide && s[i].state.want_visible
}

/// The anchor pose derived on the hidden-to-visible transition: the head
/// pose, snapped upright, composed with a one-meter offset straight ahead.
pub open spec fn anchor_pose_t(hmd: AffineFx) -> (
    (int, int, int),
    (int, int, int),
    (int, int, int),
    (int, int, int),
) {
    let sn = snap_upright_t(hmd, world_up_spec());
    (sn.0, sn.1, sn.2, add_t(mat_vec_cols(sn.0, sn.1, sn.2, (0, 0, -(FX_ONE as int))), sn.3))
}

/// The visibility an entity ends with after one toggle in which the group
/// was `any`-visible beforehand: group members flip to the opposite of
/// `any`, the watch panel is forced visible on the show transition, and
/// everything else keeps its flag.
pub open spec fn show_hide_visible(st: OverlayState, any: bool) -> bool {
    if !any && st.name@ == watch_name_spec() {
        true
    } else if st.show_hide {
        !any
    } else {
        st.want_visible
    }
}

/// Whether one toggle re-centers an entity: group members that ask for
/// realignment when re-shown, and the watch panel on the show transition.
pub open spec fn show_hide_resets(st: OverlayState, any: bool, realign: bool) -> bool {
    ||| (st.show_hide && !any && realign && st.recenter)
    ||| (!any && st.name@ == watch_name_spec())
}

/// How one entity changes across one toggle: identity, name, flags and
/// spawn data are kept; visibility follows `show_hide_visible`; an entity
/// that re-centers snaps its transform to its reset pose against `app`.
pub open spec fn toggled_entry<B>(o: OverlayData<B>, n: OverlayData<B>, any: bool, app: AppState) -> bool {
    &&& n.backend == o.backend
    &&& n.state.id == o.state.id
    &&& n.state.birth_epoch == o.state.birth_epoch
    &&& n.state.name == o.state.name
    &&& n.state.interactable == o.state.interactable
    &&& n.state.grabbable == o.state.grabbable
    &&& n.state.show_hide == o.state.show_hide
    &&& n.state.recenter == o.state.recenter
    &&& n.state.z_order == o.state.z_order
    &&& n.state.positioning == o.state.positioning
    &&& n.state.spawn_scale == o.state.spawn_scale
    &&& n.state.spawn_point == o.state.spawn_point
    &&& n.state.spawn_rotation == o.state.spawn_rotation
    &&& n.state.want_visible == show_hide_visible(o.state, any)
    &&& if show_hide_resets(o.state, any, app.session.config.realign_on_showhide) {
        let base = reset_base(o.state, app);
        let pose = pose_t(o.state.spawn_rotation, o.state.spawn_scale as int, o.state.spawn_point);
        &&& n.state.dirty
        &&& vec_ints(n.state.transform.x_axis) == mat_vec_t(base, pose.0)
        &&& vec_ints(n.state.transform.y_axis) == mat_vec_t(base, pose.1)
        &&& vec_ints(n.state.transform.z_axis) == mat_vec_t(base, pose.2)
        &&& vec_ints(n.state.transform.translation) == add_t(
            mat_vec_t(base, pose.3),
            vec_ints(base.translation),
        )
    } else {
        &&& n.state.dirty == o.state.dirty
        &&& n.state.transform == o.state.transform
    }
}

/// Show/hide symmetry: toggling the global visibility twice, with no
/// intervening changes, restores every show/hide group member's
/// `want_visible` flag to its original value, and every watch-named entity
/// ends visible.  This holds whenever the group is uniformly visible or
/// uniformly hidden beforehand, and the watch panel is not itself a group
/// member; a group with mixed visibility is normalized by the first toggle
/// instead.
pub proof fn lemma_show_hide_round_trip<B>(
    s0: Seq<OverlayData<B>>,
    s1: Seq<OverlayData<B>>,
    s2: Seq<OverlayData<B>>,
    app1: AppState,
    app2: AppState,
)
    requires
        s1.len() == s0.len(),
        s2.len() == s0.len(),
        forall|i: int|
            0 <= i < s0.len() ==> toggled_entry(s0[i], #[trigger] s1[i], any_shown(s0), app1),
        forall|i: int|
            0 <= i < s0.len() ==> toggled_entry(s1[i], #[trigger] s2[i], any_shown(s1), app2),
        any_shown(s0) ==> forall|i: int|
            0 <= i < s0.len() && #[trigger] s0[i].state.show_hide ==> s0[i].state.want_visible,
        forall|i: int|
            0 <= i < s0.len() && s0[i].state.name@ == watch_name_spec()
                ==> !(#[trigger] s0[i].state.show_hide),
    ensures
        forall|i: int|
            0 <= i < s0.len() && #[trigger] s0[i].state.show_hide ==> s2[i].state.want_visible
                == s0[i].state.want_visible,
        forall|i: int|
            0 <= i < s0.len() && s0[i].state.name@ == watch_name_spec()
                ==> #[trigger] s2[i].state.want_visible,
{
    let a0 = any_shown(s0);
    let a1 = any_shown(s1);
    if a0 {
        assert forall|i: int|
            0 <= i < s1.len() implies !(#[trigger] s1[i].state.show_hide
            && s1[i].state.want_visible) by {
            assert(toggled_entry(s0[i], s1[i], a0, app1));
            if s0[i].state.show_hide {
                assert(s1[i].state.want_visible == show_hide_visible(s0[i].state, true));
            }
        }
        assert(!a1);
    } else {
        if exists|k: int| 0 <= k < s0.len() && (#[trigger] s0[k].state.show_hide) {
            let k = choose|k: int| 0 <= k < s0.len() && (#[trigger] s0[k].state.show_hide);
            assert(toggled_entry(s0[k], s1[k], a0, app1));
            assert(s1[k].state.want_visible == show_hide_visible(s0[k].state, false));
            assert(s1[k].state.show_hide && s1[k].state.want_visible);
            assert(a1);
        } else {
            assert forall|i: int|
                0 <= i < s1.len() implies !(#[trigger] s1[i].state.show_hide
                && s1[i].state.want_visible) by {
                assert(toggled_entry(s0[i], s1[i], a0, app1));
            }
            assert(!a1);
        }
    }
    assert forall|i: int|
        0 <= i < s0.len() && #[trigger] s0[i].state.show_hide implies s2[i].state.want_visible
        == s0[i].state.want_visible by {
        assert(toggled_entry(s0[i], s1[i], a0, app1));
        assert(toggled_entry(s1[i], s2[i], a1, app2));
        assert(s0[i].state.name@ != watch_name_spec());
        assert(s1[i].state.name@ != watch_name_spec());
        if a0 {
            assert(s0[i].state.want_visible);
            assert(!s1[i].state.want_visible);
            assert(s2[i].state.want_visible == show_hide_visible(s1[i].state, false));
        } else {
            assert(!s0[i].state.want_visible);
            assert(s1[i].state.want_visible);
            assert(a1);
            assert(s2[i].state.want_visible == show_hide_visible(s1[i].state, true));
        }
    }
    assert forall|i: int|
        0 <= i < s0.len() && s0[i].state.name@ == watch_name_spec() implies #[trigger] s2[i]
        .state.want_visible by {
        assert(toggled_entry(s0[i], s1[i], a0, app1));
        assert(toggled_entry(s1[i], s2[i], a1, app2));
        assert(!s0[i].state.show_hide);
        assert(s1[i].state.name@ == watch_name_spec());
        if a0 {
            assert(!a1);
            assert(s2[i].state.want_visible == show_hide_visible(s1[i].state, false));
        } else {
            assert(s1[i].state.want_visible == show_hide_visible(s0[i].state, false));
            assert(s1[i].state.want_visible);
            if a1 {
                assert(s2[i].state.want_visible == s1[i].state.want_visible);
            } else {
                assert(s2[i].state.want_visible == show_hide_visible(s1[i].state, false));
            }
        }
    }
}

} // verus!
