//! Sidebar data: sections of typed items. Widths, colours and interaction
//! belong to the rendering layer.

use vstd::prelude::*;

verus! {

/// What kind of place a sidebar item points at.
#[derive(Debug, Clone, Copy, PartialEq, Eq, Structural)]
pub enum SidebarItemType {
    QuickAccess,
    Drive,
    Favorite,
    Recent,
    Folder,
    Tag,
}

/// One entry of the sidebar.
#[derive(Debug)]
pub struct SidebarItem {
    pub id: String,
    pub label: String,
    pub icon: String,
    pub path: Option<String>,
    pub item_type: SidebarItemType,
    pub selected: bool,
    pub badge_count: Option<u32>,
}

impl Clone for SidebarItem {
    /// A clone is equal to the original, field for field.
    fn clone(&self) -> (r: SidebarItem)
        ensures
            r == *self,
    {
        SidebarItem {
            id: self.id.clone(),
            label: self.label.clone(),
            icon: self.icon.clone(),
            path: match &self.path {
                Some(p) => Some(p.clone()),
                None => None,
            },
            item_type: self.item_type,
            selected: self.selected,
            badge_count: self.badge_count,
        }
    }
}

/// A titled group of sidebar items.
#[derive(Debug)]
pub struct SidebarSection {
    pub title: String,
    pub items: Vec<SidebarItem>,
    pub collapsible: bool,
    pub collapsed: bool,
}

} // verus!
