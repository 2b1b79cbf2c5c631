//! Per-view directory navigation: a current path plus reversible back and
//! forward history. Whether a target path is an existing, accessible
//! directory is a collaborator's verdict and is passed in by the caller; the
//! controller itself performs no I/O. The laws at the bottom prove the
//! history semantics: going back restores the previous path and makes the
//! left one forward-reachable, and navigating somewhere new clears the
//! forward stack.

use vstd::prelude::*;
use crate::error::AppError;
use crate::filesystem::{FileEntry, FileType};
use crate::pathtext::{parent_of, parent_spec};
use crate::strtext::str_eq;
use crate::system_integration::SystemIntegration;

verus! {

/// The back history never grows past this many entries; the oldest fall off.
pub const HISTORY_LIMIT: usize = 50;

/// Which navigation features are enabled.
#[derive(Debug, Clone, Copy, PartialEq, Eq, Structural)]
pub struct FileNavigationConfig {
    /// React to double-clicks on entries.
    pub enable_double_click: bool,
    /// Allow moving to the parent directory.
    pub enable_parent_navigation: bool,
    /// Record back/forward history.
    pub enable_history: bool,
}

impl Default for FileNavigationConfig {
    fn default() -> (r: FileNavigationConfig)
        ensures
            r == (FileNavigationConfig {
                enable_double_click: true,
                enable_parent_navigation: true,
                enable_history: true,
            }),
    {
        FileNavigationConfig {
            enable_double_click: true,
            enable_parent_navigation: true,
            enable_history: true,
        }
    }
}

/// The navigation cursor: current path, the two history stacks (most recent
/// last), and the last error surfaced to the user.
#[derive(Debug)]
pub struct FileNavigationState {
    pub current_path: String,
    pub history_back: Vec<String>,
    pub history_forward: Vec<String>,
    pub last_error: Option<String>,
}

impl FileNavigationState {
    /// A cursor at `initial_path` with empty history and no error.
    pub fn new(initial_path: String) -> (r: FileNavigationState)
        ensures
            r.current_path == initial_path,
            r.history_back@.len() == 0,
            r.history_forward@.len() == 0,
            r.last_error is None,
    {
        FileNavigationState {
            current_path: initial_path,
            history_back: Vec::new(),
            history_forward: Vec::new(),
            last_error: None,
        }
    }
}

/// The mathematical view of a navigation cursor.
pub ghost struct NavView {
    pub cur: Seq<char>,
    pub back: Seq<Seq<char>>,
    pub fwd: Seq<Seq<char>>,
}

/// `back` with `cur` pushed, trimmed to the history bound from the front.
pub open spec fn push_back_bounded(back: Seq<Seq<char>>, cur: Seq<char>) -> Seq<Seq<char>> {
    let b = back.push(cur);
    if b.len() > HISTORY_LIMIT {
        b.drop_first()
    } else {
        b
    }
}

/// The view after navigating to `p` with history enabled: a new path pushes
/// the current one onto the back stack and clears the forward stack; the
/// current path itself changes nothing.
pub open spec fn nav_to(v: NavView, p: Seq<char>) -> NavView {
    if p == v.cur {
        v
    } else {
        NavView { cur: p, back: push_back_bounded(v.back, v.cur), fwd: Seq::empty() }
    }
}

/// The view after going back: the top of the back stack becomes current and
/// the previous current path moves to the forward stack. Identity when the
/// back stack is empty (the operation fails there).
pub open spec fn nav_back(v: NavView) -> NavView {
    if v.back.len() == 0 {
        v
    } else {
        NavView { cur: v.back.last(), back: v.back.drop_last(), fwd: v.fwd.push(v.cur) }
    }
}

/// The view after going forward: the mirror image of `nav_back`.
pub open spec fn nav_forward(v: NavView) -> NavView {
    if v.fwd.len() == 0 {
        v
    } else {
        NavView { cur: v.fwd.last(), back: v.back.push(v.cur), fwd: v.fwd.drop_last() }
    }
}

/// The navigation controller: a cursor plus its configuration.
pub struct FileNavigationManager {
    state: FileNavigationState,
    config: FileNavigationConfig,
}

impl FileNavigationManager {
    /// The cursor's mathematical view.
    pub closed spec fn view_spec(self) -> NavView {
        NavView {
            cur: self.state.current_path@,
            back: self.state.history_back@.map_values(|p: String| p@),
            fwd: self.state.history_forward@.map_values(|p: String| p@),
        }
    }

    /// The configuration the controller was built with.
    pub closed spec fn config_spec(self) -> FileNavigationConfig {
        self.config
    }

    /// The last error surfaced, as a view.
    pub closed spec fn last_error_spec(self) -> Option<Seq<char>> {
        match self.state.last_error {
            Option::Some(m) => Option::Some(m@),
            Option::None => Option::None,
        }
    }

    /// A controller at `initial_path` under `config`.
    pub fn new(initial_path: String, config: FileNavigationConfig) -> (r: FileNavigationManager)
        ensures
            r.view_spec().cur == initial_path@,
            r.view_spec().back.len() == 0,
            r.view_spec().fwd.len() == 0,
            r.last_error_spec() is None,
            r.config_spec() == config,
    {
        let r = FileNavigationManager { state: FileNavigationState::new(initial_path), config };
        proof {
            assert(r.view_spec().back =~= Seq::<Seq<char>>::empty());
            assert(r.view_spec().fwd =~= Seq::<Seq<char>>::empty());
        }
        r
    }

    /// A controller at `initial_path` with every feature enabled.
    pub fn with_default(initial_path: String) -> (r: FileNavigationManager)
        ensures
            r.view_spec().cur == initial_path@,
            r.view_spec().back.len() == 0,
            r.view_spec().fwd.len() == 0,
            r.last_error_spec() is None,
            r.config_spec() == (FileNavigationConfig {
                enable_double_click: true,
                enable_parent_navigation: true,
                enable_history: true,
            }),
    {
        FileNavigationManager::new(initial_path, FileNavigationConfig::default())
    }

    /// The current path, as a copy.
    pub fn current_path(&self) -> (r: String)
        ensures
            r@ == self.view_spec().cur,
    {
        self.state.current_path.clone()
    }

    /// Move to `path`. The caller passes the path-validation collaborator's
    /// verdict `target_is_valid_dir`: whether `path` exists, is a directory,
    /// and is accessible. Succeeds exactly when the verdict is positive;
    /// then the view advances by `nav_to` (with history disabled, the stacks
    /// stay put) and the last error clears. A negative verdict reports
    /// `InvalidPath` with the offending path and changes nothing.
    pub fn navigate_to(&mut self, path: &String, target_is_valid_dir: bool) -> (r: Result<
        (),
        AppError,
    >)
        ensures
            r is Ok <==> target_is_valid_dir,
            final(self).config_spec() == old(self).config_spec(),
            !target_is_valid_dir ==> *final(self) == *old(self) && (match r {
                Result::Err(e) => e matches AppError::InvalidPath(p) && p@ == path@,
                Result::Ok(_) => false,
            }),
            target_is_valid_dir ==> {
                &&& final(self).last_error_spec() is None
                &&& final(self).view_spec().cur == path@
                &&& (old(self).config_spec().enable_history ==> final(self).view_spec() == nav_to(
                    old(self).view_spec(),
                    path@,
                ))
                &&& (!old(self).config_spec().enable_history ==> final(self).view_spec().back == old(
                    self,
                ).view_spec().back && final(self).view_spec().fwd == old(self).view_spec().fwd)
            },
    {
        if !target_is_valid_dir {
            return Err(AppError::InvalidPath(path.clone()));
        }
        let same = str_eq(path.as_str(), self.state.current_path.as_str());
        if self.config.enable_history && !same {
            let prior = self.state.current_path.clone();
            self.state.history_back.push(prior);
            self.state.history_forward = Vec::new();
            if self.state.history_back.len() > HISTORY_LIMIT {
                let _dropped = self.state.history_back.remove(0);
            }
            proof {
                assert(self.state.history_back@.map_values(|p: String| p@) =~= push_back_bounded(
                    old(self).view_spec().back,
                    old(self).view_spec().cur,
                ));
                assert(self.state.history_forward@.map_values(|p: String| p@)
                    =~= Seq::<Seq<char>>::empty());
            }
        }
        self.state.current_path = path.clone();
        self.state.last_error = None;
        proof {
            if self.config.enable_history && same {
                assert(final(self).view_spec() == old(self).view_spec());
            }
        }
        Ok(())
    }

    /// The parent of the current path, when it has one.
    pub fn parent_path(&self) -> (r: Option<String>)
        ensures
            match r {
                Option::Some(p) => parent_spec(self.view_spec().cur) == Option::Some(p@),
                Option::None => parent_spec(self.view_spec().cur) == Option::<Seq<char>>::None,
            },
    {
        parent_of(&self.state.current_path)
    }

    /// Move to the parent of the current path, with the collaborator's
    /// verdict on that parent. Fails with `InvalidPath` — and changes
    /// nothing — when parent navigation is disabled or the current path has
    /// no parent; otherwise delegates to `navigate_to`.
    pub fn navigate_up(&mut self, parent_is_valid_dir: bool) -> (r: Result<(), AppError>)
        ensures
            final(self).config_spec() == old(self).config_spec(),
            r is Ok <==> old(self).config_spec().enable_parent_navigation && parent_spec(
                old(self).view_spec().cur,
            ) is Some && parent_is_valid_dir,
            (!old(self).config_spec().enable_parent_navigation || parent_spec(
                old(self).view_spec().cur,
            ) is None || !parent_is_valid_dir) ==> *final(self) == *old(self),
            r is Ok ==> {
                &&& final(self).last_error_spec() is None
                &&& Option::Some(final(self).view_spec().cur) == parent_spec(
                    old(self).view_spec().cur,
                )
                &&& (old(self).config_spec().enable_history ==> final(self).view_spec() == nav_to(
                    old(self).view_spec(),
                    final(self).view_spec().cur,
                ))
            },
    {
        if !self.config.enable_parent_navigation {
            return Err(AppError::InvalidPath(self.state.current_path.clone()));
        }
        let parent = parent_of(&self.state.current_path);
        match parent {
            Some(p) => self.navigate_to(&p, parent_is_valid_dir),
            None => Err(AppError::InvalidPath(self.state.current_path.clone())),
        }
    }

    /// Step back in history. Succeeds exactly when the back stack is
    /// non-empty and the history feature is on; the view then retreats by
    /// `nav_back`. Otherwise nothing changes and `NotFound` is reported.
    pub fn go_back(&mut self) -> (r: Result<(), AppError>)
        ensures
            final(self).config_spec() == old(self).config_spec(),
            r is Ok <==> old(self).config_spec().enable_history && old(
                self,
            ).view_spec().back.len() > 0,
            r is Err ==> *final(self) == *old(self) && (match r {
                Result::Err(e) => e is NotFound,
                Result::Ok(_) => false,
            }),
            r is Ok ==> final(self).view_spec() == nav_back(old(self).view_spec())
                && final(self).last_error_spec() == old(self).last_error_spec(),
    {
        if !self.config.enable_history {
            return Err(AppError::NotFound("no back history".to_owned()));
        }
        let n = self.state.history_back.len();
        if n == 0 {
            proof {
                assert(old(self).view_spec().back.len() == 0);
            }
            return Err(AppError::NotFound("no back history".to_owned()));
        }
        let back_path = self.state.history_back.remove(n - 1);
        let prior = self.state.current_path.clone();
        self.state.history_forward.push(prior);
        self.state.current_path = back_path;
        proof {
            assert(self.state.history_back@.map_values(|p: String| p@) =~= old(
                self,
            ).view_spec().back.drop_last());
            assert(self.state.history_forward@.map_values(|p: String| p@) =~= old(
                self,
            ).view_spec().fwd.push(old(self).view_spec().cur));
            assert(old(self).view_spec().back.last() == self.state.current_path@);
        }
        Ok(())
    }

    /// Step forward in history: the mirror image of `go_back`.
    pub fn go_forward(&mut self) -> (r: Result<(), AppError>)
        ensures
            final(self).config_spec() == old(self).config_spec(),
            r is Ok <==> old(self).config_spec().enable_history && old(
                self,
            ).view_spec().fwd.len() > 0,
            r is Err ==> *final(self) == *old(self) && (match r {
                Result::Err(e) => e is NotFound,
                Result::Ok(_) => false,
            }),
            r is Ok ==> final(self).view_spec() == nav_forward(old(self).view_spec())
                && final(self).last_error_spec() == old(self).last_error_spec(),
    {
        if !self.config.enable_history {
            return Err(AppError::NotFound("no forward history".to_owned()));
        }
        let n = self.state.history_forward.len();
        if n == 0 {
            proof {
                assert(old(self).view_spec().fwd.len() == 0);
            }
            return Err(AppError::NotFound("no forward history".to_owned()));
        }
        let forward_path = self.state.history_forward.remove(n - 1);
        let prior = self.state.current_path.clone();
        self.state.history_back.push(prior);
        self.state.current_path = forward_path;
        proof {
            assert(self.state.history_forward@.map_values(|p: String| p@) =~= old(
                self,
            ).view_spec().fwd.drop_last());
            assert(self.state.history_back@.map_values(|p: String| p@) =~= old(
                self,
            ).view_spec().back.push(old(self).view_spec().cur));
            assert(old(self).view_spec().fwd.last() == self.state.current_path@);
        }
        Ok(())
    }

    /// Whether a back step is available. Safe to poll every frame.
    pub fn can_go_back(&self) -> (r: bool)
        ensures
            r == (self.view_spec().back.len() > 0),
    {
        self.state.history_back.len() > 0
    }

    /// Whether a forward step is available. Safe to poll every frame.
    pub fn can_go_forward(&self) -> (r: bool)
        ensures
            r == (self.view_spec().fwd.len() > 0),
    {
        self.state.history_forward.len() > 0
    }

    /// Whether moving to the parent is possible. Safe to poll every frame.
    pub fn can_go_up(&self) -> (r: bool)
        ensures
            r == (self.config_spec().enable_parent_navigation && parent_spec(
                self.view_spec().cur,
            ) is Some),
    {
        if !self.config.enable_parent_navigation {
            return false;
        }
        let parent = parent_of(&self.state.current_path);
        parent.is_some()
    }

    /// React to a double-click on an entry. A directory entry is navigated
    /// to, under the collaborator's verdict `dir_is_valid`; any other entry
    /// is handed to the system integration to open. A failure of either is
    /// captured as the last error for the error callback to surface, never
    /// propagated; with double-clicks disabled nothing happens at all.
    pub fn handle_double_click<S: SystemIntegration>(
        &mut self,
        entry: &FileEntry,
        dir_is_valid: bool,
        integration: &S,
    )
        ensures
            final(self).config_spec() == old(self).config_spec(),
            !old(self).config_spec().enable_double_click ==> *final(self) == *old(self),
            old(self).config_spec().enable_double_click && entry.file_type == FileType::Directory
                && dir_is_valid ==> {
                &&& final(self).view_spec().cur == entry.path@
                &&& (final(self).last_error_spec() is None)
                &&& (old(self).config_spec().enable_history ==> final(self).view_spec() == nav_to(
                    old(self).view_spec(),
                    entry.path@,
                ))
            },
            old(self).config_spec().enable_double_click && entry.file_type == FileType::Directory
                && !dir_is_valid ==> {
                &&& final(self).view_spec() == old(self).view_spec()
                &&& (final(self).last_error_spec() is Some)
            },
            old(self).config_spec().enable_double_click && entry.file_type != FileType::Directory
                ==> {
                &&& final(self).view_spec() == old(self).view_spec()
                &&& (final(self).last_error_spec() == old(self).last_error_spec() || (
                final(self).last_error_spec() is Some))
            },
    {
        if !self.config.enable_double_click {
            return;
        }
        if entry.file_type == FileType::Directory {
            let result = self.navigate_to(&entry.path, dir_is_valid);
            match result {
                Ok(_) => {},
                Err(e) => {
                    self.record_error(e.describe());
                },
            }
        } else {
            let result = if entry.file_type == FileType::File {
                integration.open_file(&entry.path)
            } else {
                integration.open_folder(&entry.path)
            };
            match result {
                Ok(_) => {},
                Err(e) => {
                    self.record_error(e.describe());
                },
            }
        }
    }

    /// Record a failure for the user to see; the cursor does not move.
    pub fn record_error(&mut self, message: String)
        ensures
            final(self).last_error_spec() == Option::Some(message@),
            final(self).view_spec() == old(self).view_spec(),
            final(self).config_spec() == old(self).config_spec(),
    {
        self.state.last_error = Some(message);
    }

    /// The last recorded error, as a copy.
    pub fn last_error(&self) -> (r: Option<String>)
        ensures
            match r {
                Option::Some(m) => self.last_error_spec() == Option::Some(m@),
                Option::None => self.last_error_spec() is None,
            },
    {
        match &self.state.last_error {
            Some(m) => Some(m.clone()),
            None => None,
        }
    }

    /// Forget the last recorded error.
    pub fn clear_error(&mut self)
        ensures
            final(self).last_error_spec() is None,
            final(self).view_spec() == old(self).view_spec(),
            final(self).config_spec() == old(self).config_spec(),
    {
        self.state.last_error = None;
    }
}

/// A bounded push leaves the pushed path on top and the stack non-empty.
proof fn lemma_push_back_bounded_top(back: Seq<Seq<char>>, cur: Seq<char>)
    ensures
        push_back_bounded(back, cur).len() >= 1,
        push_back_bounded(back, cur).last() == cur,
{
}

/// History round trip: after `navigate_to(a)` then `navigate_to(b)` with
/// `b != a`, going back restores `a` and leaves `b` on top of the forward
/// stack, so `go_forward` would reach `b` again; a subsequent navigation to
/// any `c != a` empties the forward stack, making `b` forward-unreachable.
/// (Navigating to `a` itself is a no-op and leaves the stack as it is, which
/// is why the law asks `c != a`.)
pub proof fn lemma_history_round_trip(v: NavView, a: Seq<char>, b: Seq<char>, c: Seq<char>)
    requires
        b != a,
        c != a,
    ensures
        ({
            let v2 = nav_back(nav_to(nav_to(v, a), b));
            &&& v2.cur == a
            &&& v2.fwd.len() > 0 && v2.fwd.last() == b
            &&& nav_forward(v2).cur == b
            &&& nav_to(v2, c).fwd.len() == 0
        }),
{
    let v1 = nav_to(v, a);
    assert(v1.cur == a);
    let vb = nav_to(v1, b);
    lemma_push_back_bounded_top(v1.back, a);
    let v2 = nav_back(vb);
    assert(v2.cur == a);
    assert(v2.fwd =~= Seq::<Seq<char>>::empty().push(b));
}

} // verus!
