//! Breadcrumb navigation data: the configuration of the trail and its
//! items, plus the current-path holder the rendering layer binds to.

use vstd::prelude::*;

verus! {

/// How the breadcrumb trail is displayed.
#[derive(Debug)]
pub struct BreadcrumbConfig {
    /// Components beyond this many are elided.
    pub max_visible_paths: usize,
    pub separator: String,
    pub home_icon: String,
    pub root_icon: String,
    pub folder_icon: String,
}

impl Default for BreadcrumbConfig {
    fn default() -> (r: BreadcrumbConfig)
        ensures
            r.max_visible_paths == 6,
            r.separator@ == " / "@,
            r.home_icon@ == "🏠"@,
            r.root_icon@ == "💻"@,
            r.folder_icon@ == "📁"@,
    {
        BreadcrumbConfig {
            max_visible_paths: 6,
            separator: " / ".to_owned(),
            home_icon: "🏠".to_owned(),
            root_icon: "💻".to_owned(),
            folder_icon: "📁".to_owned(),
        }
    }
}

impl Clone for BreadcrumbConfig {
    /// A clone agrees with the original on every field.
    fn clone(&self) -> (r: BreadcrumbConfig)
        ensures
            r.max_visible_paths == self.max_visible_paths,
            r.separator@ == self.separator@,
            r.home_icon@ == self.home_icon@,
            r.root_icon@ == self.root_icon@,
            r.folder_icon@ == self.folder_icon@,
    {
        BreadcrumbConfig {
            max_visible_paths: self.max_visible_paths,
            separator: self.separator.clone(),
            home_icon: self.home_icon.clone(),
            root_icon: self.root_icon.clone(),
            folder_icon: self.folder_icon.clone(),
        }
    }
}

/// One element of the breadcrumb trail.
#[derive(Debug)]
pub struct BreadcrumbItem {
    /// The displayed name.
    pub name: String,
    /// The full path the element stands for.
    pub path: String,
    pub icon: Option<String>,
    pub clickable: bool,
}

impl Clone for BreadcrumbItem {
    /// A clone is equal to the original, field for field.
    fn clone(&self) -> (r: BreadcrumbItem)
        ensures
            r == *self,
    {
        BreadcrumbItem {
            name: self.name.clone(),
            path: self.path.clone(),
            icon: match &self.icon {
                Some(i) => Some(i.clone()),
                None => None,
            },
            clickable: self.clickable,
        }
    }
}

/// The current-path holder behind a breadcrumb view.
pub struct BreadcrumbNavigation {
    current_path: String,
    config: BreadcrumbConfig,
}

impl BreadcrumbNavigation {
    /// The current path.
    pub closed spec fn current_path_spec(self) -> Seq<char> {
        self.current_path@
    }

    /// A trail at `initial_path` under `config`.
    pub fn new(initial_path: String, config: BreadcrumbConfig) -> (r: BreadcrumbNavigation)
        ensures
            r.current_path_spec() == initial_path@,
    {
        BreadcrumbNavigation { current_path: initial_path, config }
    }

    /// A trail at `initial_path` with the default configuration.
    pub fn with_default(initial_path: String) -> (r: BreadcrumbNavigation)
        ensures
            r.current_path_spec() == initial_path@,
    {
        BreadcrumbNavigation::new(initial_path, BreadcrumbConfig::default())
    }

    /// Move the trail to `path`.
    pub fn set_path(&mut self, path: String)
        ensures
            final(self).current_path_spec() == path@,
    {
        self.current_path = path;
    }

    /// The current path, as a copy.
    pub fn current_path(&self) -> (r: String)
        ensures
            r@ == self.current_path_spec(),
    {
        self.current_path.clone()
    }
}

} // verus!
