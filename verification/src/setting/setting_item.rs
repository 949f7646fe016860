//! The `setting_item` component: a settings block that can be expandable or standalone.

use vstd::prelude::*;

verus! {

/// Which part of the configuration a switch changes.
#[derive(Debug, Clone, Copy, PartialEq, Eq, Structural)]
pub enum SwitchEdit {
    UncombineMode,
    CycleTaskbarBased,
}

/// Which hotkey a button changes.
#[derive(Debug, Clone, Copy, PartialEq, Eq, Structural)]
pub enum HotkeyEdit {
    Left,
    Right,
}

/// The control in the right corner of an item.
#[derive(Debug, Clone, Copy, PartialEq, Eq)]
pub enum SettingAction {
    /// A switch; one without an edit changes nothing.
    Switch { on: bool, edit: Option<SwitchEdit> },
    /// A button with a hotkey: its modifiers and its key.
    Hotkey { hotkey: (u32, u32), direction: HotkeyEdit },
}

/// Configuration properties for a setting item (`setting_item`).
#[derive(Debug)]
pub struct SettingItemProps {
    /// Icon for the setting item (if any).
    pub icon: Option<char>,
    /// Main title.
    pub title: Option<String>,
    /// Detailed sub-description for the title (displayed dimmer and smaller below).
    pub description: Option<String>,
    /// Interactive element in the right corner.
    pub action: Option<SettingAction>,
    /// List of child items. If present, the card can drop down.
    pub children: Option<Vec<SettingItemProps>>,
    /// If true, the children will always be displayed, without the icon to collapse.
    pub always_expand: bool,
    /// Allows this item to be displayed in an interactive state or not.
    pub enabled: bool,
}

/// The measures of one row, in pixels.
#[derive(Debug, Clone, Copy, PartialEq, Eq, Structural)]
pub struct RowLayout {
    pub icon: Option<char>,
    /// Width of the column of the icon.
    pub icon_width: u32,
    /// Margin to the left of title and description.
    pub content_left: u32,
    /// Margin to the right of the action.
    pub action_right: u32,
    pub min_height: u32,
    /// Opacity in percent.
    pub opacity: u32,
}

/// The row of a child.
#[derive(Debug, Clone, Copy, PartialEq, Eq, Structural)]
pub struct ChildRow {
    /// A line separates the row from the one above.
    pub separator_above: bool,
    pub row: RowLayout,
}

/// A card: a row, and the rows of the children below it.
#[derive(Debug)]
pub struct CardLayout {
    pub header: RowLayout,
    /// The icon that shows whether the card is dropped down, for a card that can be collapsed.
    pub chevron: Option<char>,
    /// The rows of the children; nothing without children.
    pub children: Option<Vec<ChildRow>>,
    /// The children are shown.
    pub is_expanded: bool,
    /// A click shows or hides the children.
    pub clickable: bool,
}

/// The measures of a row.
pub open spec fn row(
    icon: Option<char>,
    collapsible: bool,
    is_child: bool,
    enabled: bool,
) -> RowLayout {
    RowLayout {
        icon,
        icon_width: if icon is Some {
            54
        } else {
            0
        },
        content_left: if icon is Some {
            0
        } else {
            16
        },
        action_right: if collapsible || is_child {
            4
        } else {
            16
        },
        min_height: if is_child {
            54
        } else {
            64
        },
        opacity: if enabled {
            100
        } else {
            50
        },
    }
}

impl SettingItemProps {
    /// The children can be hidden.
    pub open spec fn collapsible(&self) -> bool {
        self.children is Some && !self.always_expand
    }

    /// The row of the child `i`, which is enabled only if its parent is too.
    pub open spec fn child_row(&self, i: int) -> ChildRow {
        let child = self.children->0@[i];
        ChildRow {
            separator_above: i > 0,
            row: row(child.icon, child.collapsible(), true, child.enabled && self.enabled),
        }
    }
}

/// The row of an item; `enabled` is whether it can be used, which a child has from its parent too.
pub fn render_inner_layout(props: &SettingItemProps, enabled: bool, is_child: bool) -> (layout:
    RowLayout)
    ensures
        layout == row(props.icon, props.collapsible(), is_child, enabled),
{
    let (icon_width, content_left): (u32, u32) = match props.icon {
        Some(_) => (54, 0),
        None => (0, 16),
    };
    let action_right: u32 = if (props.children.is_some() && !props.always_expand) || is_child {
        4
    } else {
        16
    };
    let min_height: u32 = if is_child {
        54
    } else {
        64
    };
    let opacity: u32 = if enabled {
        100
    } else {
        50
    };
    RowLayout { icon: props.icon, icon_width, content_left, action_right, min_height, opacity }
}

/// Whether an item is dropped down at first.
pub fn initially_expanded(props: &SettingItemProps) -> (expanded: bool)
    ensures
        expanded == props.always_expand,
{
    props.always_expand
}

/// Root element for a setting item.
///
/// With children the card can drop down; a click anywhere on it shows or hides them, unless they
/// are always shown or the item is not enabled.
pub fn setting_item(props: &SettingItemProps, is_expanded: bool) -> (card: CardLayout)
    ensures
        card.header == row(props.icon, props.collapsible(), false, props.enabled),
        card.chevron == if !props.collapsible() {
            None
        } else if is_expanded {
            Some('\u{E70E}')
        } else {
            Some('\u{E70D}')
        },
        card.is_expanded == is_expanded,
        card.clickable == (props.collapsible() && props.enabled),
        card.children is Some <==> props.children is Some,
        card.children matches Some(rows) ==> {
            &&& rows@.len() == props.children->0@.len()
            &&& forall|i: int|
                0 <= i < rows@.len() ==> #[trigger] rows@[i] == props.child_row(i)
        },
{
    let header = render_inner_layout(props, props.enabled, false);
    let chevron = if props.children.is_some() && !props.always_expand {
        if is_expanded {
            Some('\u{E70E}')
        } else {
            Some('\u{E70D}')
        }
    } else {
        None
    };
    let children = match &props.children {
        Some(children) => {
            let mut rows: Vec<ChildRow> = Vec::new();
            for i in 0..children.len()
                invariant
                    props.children == Some(*children),
                    rows@.len() == i,
                    forall|k: int| 0 <= k < i ==> #[trigger] rows@[k] == props.child_row(k),
            {
                let child = &children[i];
                let row = render_inner_layout(child, child.enabled && props.enabled, true);
                rows.push(ChildRow { separator_above: i > 0, row });
            }
            Some(rows)
        },
        None => None,
    };
    let clickable = props.children.is_some() && !props.always_expand && props.enabled;
    CardLayout { header, chevron, children, is_expanded, clickable }
}

/// Whether a card is dropped down after a click.
pub fn after_click(card: &CardLayout) -> (expanded: bool)
    ensures
        expanded == if card.clickable {
            !card.is_expanded
        } else {
            card.is_expanded
        },
{
    if card.clickable {
        !card.is_expanded
    } else {
        card.is_expanded
    }
}

/// A child of an item that is not enabled looks disabled, whatever it is itself.
pub proof fn law_disabled_item_disables_its_children(props: SettingItemProps, i: int)
    requires
        !props.enabled,
    ensures
        props.child_row(i).row.opacity == 50,
{
}

/// What each property of an item does to its row, and that it does nothing else: the icon takes a
/// column of its own or leaves a margin, a child is lower, and a disabled item is half as opaque.
pub proof fn law_row_measures(icon: Option<char>, collapsible: bool, is_child: bool, enabled: bool)
    ensures
        ({
            let r = row(icon, collapsible, is_child, enabled);
            &&& r.icon == icon
            &&& icon is Some ==> r.icon_width == 54 && r.content_left == 0
            &&& icon is None ==> r.icon_width == 0 && r.content_left == 16
            &&& r.action_right == 16 <==> !collapsible && !is_child
            &&& r.action_right == 4 <==> collapsible || is_child
            &&& is_child ==> r.min_height == 54
            &&& !is_child ==> r.min_height == 64
            &&& r.opacity == 100 <==> enabled
            &&& r.opacity == 50 <==> !enabled
        }),
{
}

/// A child has its own icon, is enabled only with its parent, and a line stands above it unless it is
/// the first.
pub proof fn law_child_rows(props: SettingItemProps, i: int)
    requires
        props.children is Some,
        0 <= i < props.children->0@.len(),
    ensures
        ({
            let child = props.children->0@[i];
            let r = props.child_row(i);
            &&& r.separator_above <==> i != 0
            &&& r.row.icon == child.icon
            &&& r.row.opacity == 100 <==> child.enabled && props.enabled
            &&& r.row.min_height == 54
            &&& r.row.action_right == 4
        }),
        props.collapsible() <==> !props.always_expand,
{
}

/// Only a card with children can be collapsed.
pub proof fn law_card_without_children_stays_open(props: SettingItemProps)
    requires
        props.children is None,
    ensures
        !props.collapsible(),
{
}

} // verus!
