//! What the mouse does.

use vstd::prelude::*;
use crate::app::command::{CopyFormat, PaneSide};
use crate::app::copy::{JobToCopy, OriginView};
use crate::app::effect::{EffectView, Overlay};
use crate::app::mouse::{MouseButton, MouseContext, MouseEvent, MouseKind};
use crate::app::state::{AppView, Pane, Selection};
use crate::composer::{INPUT_PREFIX, line_end, nth_line_start};
use crate::context_menu::{ContextMenuAction, MenuView, menu_items};
use crate::editor::EditorView;
use crate::editor_laws::is_line;
use crate::geometry::Rect;
use crate::text::{find_from, lemma_find_from};
use crate::width::display_width;

verus! {

/// A pane's divider follows the mouse while it is held: the pane gets the share of the
/// body that lies on its side of the mouse, but neither side gets less than 15 percent.
pub proof fn dividers_follow_the_mouse(v: AppView, m: MouseEvent, ctx: MouseContext)
    requires
        !v.overlays.stats && !v.overlays.sessions && !v.overlays.skills && !v.overlays.plans
            && !v.overlays.permissions,
        v.context_pane is None,
        v.pane.open,
        v.pane.dragging,
        v.pane.body is Some,
        v.pane.body->0.width > 0,
        v.pane.body->0.height > 0,
        v.pane.body->0.has(m.column as int, m.row as int),
        m.kind == MouseKind::Drag(MouseButton::Left),
    ensures
        ({
            let body = v.pane.body->0;
            let (after, effect) = v.mouse_used(m, ctx);
            let across = v.pane.side is Left || v.pane.side is Right;
            let part = match v.pane.side {
                PaneSide::Left => m.column - body.x,
                PaneSide::Right => body.x + body.width - m.column,
                PaneSide::Top => m.row - body.y,
                PaneSide::Bottom => body.y + body.height - m.row,
                PaneSide::Full => 0,
            };
            let whole: int = if across {
                body.width as int
            } else {
                body.height as int
            };
            let split = after.pane.split;
            &&& effect == EffectView::Stay
            &&& after == (AppView { pane: (Pane { split, ..v.pane }), ..v })
            &&& v.pane.side is Full ==> split == v.pane.split
            &&& !(v.pane.side is Full) && 15 * whole <= 100 * part <= 85 * whole ==> split.part
                == part && split.whole == whole
            &&& !(v.pane.side is Full) && 100 * part < 15 * whole ==> split.part == 15
                && split.whole == 100
            &&& !(v.pane.side is Full) && 100 * part > 85 * whole ==> split.part == 85
                && split.whole == 100
        }),
{
    reveal(AppView::mouse_used);
    reveal(AppView::pane_mouse);
    let after = v.mouse_used(m, ctx).0;
    assert(after =~= (AppView { pane: (Pane { split: after.pane.split, ..v.pane }), ..v }));
}

/// The divider is grabbed by a click on it and let go with the button; a click into the
/// pane focuses it, and its program gets what happens over it while it has the focus.
pub proof fn panes_take_the_mouse(v: AppView, m: MouseEvent, ctx: MouseContext)
    requires
        !v.overlays.stats && !v.overlays.sessions && !v.overlays.skills && !v.overlays.plans
            && !v.overlays.permissions,
        v.context_pane is None,
        v.pane.open,
    ensures
        ({
            let (after, effect) = v.mouse_used(m, ctx);
            let at = (m.column as int, m.row as int);
            let on_divider = v.pane.divider is Some && v.pane.divider->0.has(at.0, at.1);
            let over = v.pane.rect is Some && v.pane.rect->0.has(at.0, at.1);
            &&& v.pane.dragging && m.kind == MouseKind::Up(MouseButton::Left) ==> after == (AppView {
                pane: (Pane { dragging: false, ..v.pane }),
                ..v
            }) && effect == EffectView::Stay
            &&& v.pane.dragging ==> effect == EffectView::Stay && after.editor == v.editor
                && after.screen == v.screen
            &&& !v.pane.dragging && m.kind == MouseKind::Down(MouseButton::Left)
                && on_divider ==> after == (AppView {
                pane: (Pane { dragging: true, ..v.pane }),
                toast: None,
                ..v
            }) && effect == EffectView::Stay
            &&& !v.pane.dragging && over && m.kind is Down && !(m.kind == MouseKind::Down(
                MouseButton::Left,
            ) && on_divider) ==> after.pane == (Pane { focused: true, ..v.pane }) && effect
                == EffectView::ForwardMouse
            &&& !v.pane.dragging && over && !(m.kind is Down) ==> after.pane == v.pane && effect
                == if v.pane.focused {
                EffectView::ForwardMouse
            } else {
                EffectView::Stay
            }
        }),
{
    reveal(AppView::mouse_used);
    reveal(AppView::pane_mouse);
}

/// The wheel scrolls the topmost overlay: the statistics, then the sessions, the skills,
/// the plans and the permissions. Under an overlay nothing else of the mouse counts.
pub proof fn wheels_turn_the_overlay(v: AppView, m: MouseEvent, ctx: MouseContext)
    ensures
        ({
            let (after, effect) = v.mouse_used(m, ctx);
            let o = v.overlays;
            let up = m.kind is ScrollUp;
            let turned = up || m.kind is ScrollDown;
            &&& turned && o.stats ==> effect == (EffectView::OverlayWheel {
                overlay: Overlay::Stats,
                up,
            })
            &&& turned && !o.stats && o.sessions ==> effect == (EffectView::OverlayWheel {
                overlay: Overlay::Sessions,
                up,
            })
            &&& turned && !o.stats && !o.sessions && o.skills ==> effect
                == (EffectView::OverlayWheel { overlay: Overlay::Skills, up })
            &&& turned && !o.stats && !o.sessions && !o.skills && o.plans ==> effect
                == (EffectView::OverlayWheel { overlay: Overlay::Plans, up })
            &&& turned && !o.stats && !o.sessions && !o.skills && !o.plans && o.permissions
                ==> effect == (EffectView::OverlayWheel { overlay: Overlay::Permissions, up })
            &&& !turned && (o.stats || o.sessions || o.skills || o.plans || o.permissions)
                ==> effect == EffectView::Stay
            &&& o.stats || o.sessions || o.skills || o.plans || o.permissions
                || v.context_pane is Some ==> after == (AppView { toast: after.toast, ..v })
        }),
{
    reveal(AppView::mouse_used);
}

/// A click or a turn of the wheel takes the toast with it; moving the mouse does not.
pub proof fn clicks_drop_the_toast(v: AppView, m: MouseEvent, ctx: MouseContext)
    requires
        v.context_menu is None,
    ensures
        v.mouse_used(m, ctx).0.toast == if m.kind is Down || m.kind is ScrollUp
            || m.kind is ScrollDown {
            None
        } else {
            v.toast
        },
{
    reveal(AppView::mouse_used);
    reveal(AppView::pane_mouse);
    reveal(AppView::open_mouse);
    reveal(AppView::wheel_turned);
    reveal(AppView::left_clicked);
    reveal(AppView::chat_clicked);
}

/// The chat gets the mouse: nothing lies over it and no pane is open.
pub open spec fn has_the_mouse(v: AppView) -> bool {
    &&& !v.overlays.stats && !v.overlays.sessions && !v.overlays.skills && !v.overlays.plans
        && !v.overlays.permissions
    &&& v.context_pane is None
    &&& !v.pane.open
    &&& v.context_menu is None
}

/// A right click into the chat opens the menu there: rich text, markdown and plain text,
/// over SSH without the rich text, with the first item in focus.
pub proof fn right_clicks_open_the_menu(v: AppView, m: MouseEvent, ctx: MouseContext)
    requires
        has_the_mouse(v),
        v.screen.chat_area is Some,
        v.screen.chat_area->0.has(m.column as int, m.row as int),
        m.kind == MouseKind::Down(MouseButton::Right),
    ensures
        ({
            let (after, effect) = v.mouse_used(m, ctx);
            let menu = after.context_menu->0;
            &&& effect == EffectView::Stay
            &&& after.context_menu is Some
            &&& after == (AppView { context_menu: after.context_menu, toast: None, ..v })
            &&& menu.preferred_origin == (m.column, m.row)
            &&& menu.clicked_chat_row == m.row - v.screen.chat_area->0.y
            &&& menu.cursor == 0
            &&& ctx.is_ssh ==> menu.items == seq![
                ContextMenuAction::CopyAsMarkdown,
                ContextMenuAction::CopyAsPlainText,
            ]
            &&& !ctx.is_ssh ==> menu.items == seq![
                ContextMenuAction::CopyAsRichText,
                ContextMenuAction::CopyAsMarkdown,
                ContextMenuAction::CopyAsPlainText,
            ]
        }),
{
    reveal(AppView::mouse_used);
    reveal(AppView::open_mouse);
    let after = v.mouse_used(m, ctx).0;
    assert(after =~= (AppView { context_menu: after.context_menu, toast: None, ..v }));
}

/// A click on an item of the menu copies the message that the menu was opened on in the
/// form of that item. A click elsewhere, and the wheel, only close the menu.
pub proof fn menu_items_are_clicked(v: AppView, m: MouseEvent, ctx: MouseContext)
    requires
        v.context_menu is Some,
        !v.pane.open,
        v.context_pane is None,
        !v.overlays.stats && !v.overlays.sessions && !v.overlays.skills && !v.overlays.plans
            && !v.overlays.permissions,
    ensures
        ({
            let (after, effect) = v.mouse_used(m, ctx);
            let menu = v.context_menu->0;
            let at = menu.spec_placement(ctx.terminal);
            let item = m.row - at.y - 1;
            let hit = at.has(m.column as int, m.row as int) && 0 <= item < menu.items.len();
            let message = v.message_at(menu.clicked_chat_row as int);
            let left = m.kind == MouseKind::Down(MouseButton::Left);
            &&& left && hit && message is Some ==> effect == EffectView::Copy(
                JobToCopy {
                    text: (message->0).1,
                    format: (match menu.items[item] {
                        ContextMenuAction::CopyAsRichText => CopyFormat::Rich,
                        ContextMenuAction::CopyAsMarkdown => CopyFormat::Markdown,
                        ContextMenuAction::CopyAsPlainText => CopyFormat::Plain,
                    }),
                    origin: OriginView::Menu((message->0).0),
                },
            )
            &&& m.kind is Down || m.kind is ScrollUp || m.kind is ScrollDown
                ==> after.context_menu is None
            &&& !(m.kind is Down || m.kind is ScrollUp || m.kind is ScrollDown) ==> after == v
                && effect == EffectView::Stay
            &&& (m.kind is Down || m.kind is ScrollUp || m.kind is ScrollDown) && !(left && hit)
                ==> after == (AppView { context_menu: None, toast: None, ..v }) && effect
                == EffectView::Stay
        }),
{
    reveal(AppView::mouse_used);
    reveal(AppView::menu_mouse);
    reveal(AppView::menu_copy);
    let w = AppView { context_menu: None, toast: None, ..v };
    assert(w.message_at(v.context_menu->0.clicked_chat_row as int) == v.message_at(
        v.context_menu->0.clicked_chat_row as int,
    ));
}

/// A menu is as wide as its longest label and four cells, and two rows higher than its
/// items. It has its corner at the click where there is room below and to the right.
pub proof fn menus_open_at_the_click(menu: MenuView, area: Rect, is_ssh: bool)
    requires
        menu.items == menu_items(is_ssh),
        area.on_screen(),
        area.has(menu.preferred_origin.0 as int, menu.preferred_origin.1 as int),
        menu.preferred_origin.0 + 22 <= area.right(),
        menu.preferred_origin.1 + 5 <= area.bottom(),
    ensures
        menu.spec_placement(area).width == 22,
        menu.spec_placement(area).height == if is_ssh {
            4int
        } else {
            5
        },
        menu.spec_placement(area).x == menu.preferred_origin.0,
        menu.spec_placement(area).y == menu.preferred_origin.1,
{
    reveal_strlit("Copy as rich text");
    reveal_strlit("Copy as markdown");
    reveal_strlit("Copy as plain text");
    let rest = seq![ContextMenuAction::CopyAsRichText, ContextMenuAction::CopyAsMarkdown];
    reveal_with_fuel(crate::context_menu::widest_label, 4);
    if is_ssh {
        assert(menu.items.drop_last() =~= seq![ContextMenuAction::CopyAsMarkdown]);
        assert(menu.items.drop_last().drop_last() =~= Seq::<ContextMenuAction>::empty());
    } else {
        assert(menu.items.drop_last() =~= rest);
        assert(rest.drop_last() =~= seq![ContextMenuAction::CopyAsRichText]);
        assert(rest.drop_last().drop_last() =~= Seq::<ContextMenuAction>::empty());
    }
}

/// The items of the menu say what they copy as.
pub proof fn menu_items_are_labelled()
    ensures
        ContextMenuAction::CopyAsRichText.spec_label() == "Copy as rich text"@,
        ContextMenuAction::CopyAsMarkdown.spec_label() == "Copy as markdown"@,
        ContextMenuAction::CopyAsPlainText.spec_label() == "Copy as plain text"@,
{
}

/// A turn of the wheel over the chat scrolls it by three lines, up to the oldest line and
/// down to the newest, and drops the selection. Elsewhere it does nothing.
pub proof fn wheels_scroll_the_chat(v: AppView, m: MouseEvent, ctx: MouseContext)
    requires
        has_the_mouse(v),
        m.kind is ScrollUp || m.kind is ScrollDown,
        v.screen.chat_area is Some,
        v.screen.visible_lines <= v.screen.total_lines,
        v.screen.scroll_offset <= v.screen.total_lines - v.screen.visible_lines,
        m.row >= v.screen.chat_area->0.y ==> (m.row - v.screen.chat_area->0.y
            >= v.box_rows.len() || v.box_rows[m.row - v.screen.chat_area->0.y] is None),
    ensures
        ({
            let (after, effect) = v.mouse_used(m, ctx);
            let inside = v.screen.chat_area->0.has(m.column as int, m.row as int);
            let top = v.screen.total_lines - v.screen.visible_lines;
            let was = v.screen.scroll_offset;
            &&& effect == EffectView::Stay
            &&& !inside ==> after == (AppView { toast: None, ..v })
            &&& inside ==> after.screen.selection is None && after.history == v.history
            &&& inside && m.kind is ScrollUp ==> after.screen.scroll_offset == (if was + 3 <= top {
                was + 3
            } else {
                top
            })
            &&& inside && m.kind is ScrollDown ==> after.screen.scroll_offset == (if was >= 3 {
                was - 3
            } else {
                0
            })
        }),
{
    reveal(AppView::mouse_used);
    reveal(AppView::open_mouse);
    reveal(AppView::wheel_turned);
}

/// Over a folded tool box the wheel moves the box by one call, as long as it can move:
/// up to its first call, and down to its newest, which it follows again. Then the chat
/// scrolls.
pub proof fn wheels_scroll_the_boxes(v: AppView, m: MouseEvent, ctx: MouseContext, i: usize)
    requires
        has_the_mouse(v),
        m.kind is ScrollUp || m.kind is ScrollDown,
        v.screen.chat_area is Some,
        v.screen.chat_area->0.has(m.column as int, m.row as int),
        m.row - v.screen.chat_area->0.y < v.box_rows.len(),
        v.box_rows[m.row - v.screen.chat_area->0.y] == Some(i),
        i < v.history.len(),
        v.history[i as int] is ToolBox,
        v.history[i as int]->view_offset >= 0,
    ensures
        ({
            let after = v.mouse_used(m, ctx).0;
            let was = v.history[i as int];
            let now = after.history[i as int];
            let last = was->calls.len() - 5;
            let top = if was->follow || was->view_offset > last {
                last
            } else {
                was->view_offset
            };
            &&& after.history.len() == v.history.len()
            &&& now is ToolBox && now->calls == was->calls && now->ToolBox_expanded
                == was->ToolBox_expanded
            &&& forall|j: int| 0 <= j < v.history.len() && j != i ==> #[trigger] after.history[j]
                == v.history[j]
            &&& was->ToolBox_expanded || last <= 0 ==> now == was
            &&& !was->ToolBox_expanded && last > 0 && m.kind is ScrollUp && top > 0 ==> {
                &&& now->view_offset == top - 1 && !now->follow
                &&& after.screen.scroll_offset == v.screen.scroll_offset
            }
            &&& !was->ToolBox_expanded && last > 0 && m.kind is ScrollUp && top == 0 ==> now == was
            &&& !was->ToolBox_expanded && last > 0 && m.kind is ScrollDown && !was->follow ==> {
                &&& now->follow == (top + 1 >= last)
                &&& !now->follow ==> now->view_offset == top + 1
                &&& after.screen.scroll_offset == v.screen.scroll_offset
            }
            &&& was->follow && m.kind is ScrollDown ==> now == was
        }),
{
    reveal(AppView::mouse_used);
    reveal(AppView::open_mouse);
    reveal(AppView::wheel_turned);
}

/// Dragging over the chat selects from where the button went down to the mouse, but not
/// out of the chat, and the selection stays when the button is let go.
pub proof fn drags_select(v: AppView, m: MouseEvent, ctx: MouseContext)
    requires
        has_the_mouse(v),
        v.screen.chat_area is Some,
        v.screen.chat_area->0.on_screen(),
        v.screen.chat_area->0.width > 0,
        v.screen.chat_area->0.height > 0,
    ensures
        ({
            let after = v.mouse_used(m, ctx).0;
            let area = v.screen.chat_area->0;
            let s = v.screen.selection->0;
            let t = after.screen.selection->0;
            &&& m.kind == MouseKind::Drag(MouseButton::Left) && v.screen.selection is Some
                && s.active ==> {
                &&& after.screen.selection is Some && t.active && t.anchor == s.anchor
                &&& t.focus.0 == (if m.column < area.x {
                    area.x as int
                } else if m.column >= area.x + area.width {
                    area.x + area.width - 1
                } else {
                    m.column as int
                })
                &&& t.focus.1 == (if m.row < area.y {
                    area.y as int
                } else if m.row >= area.y + area.height {
                    area.y + area.height - 1
                } else {
                    m.row as int
                })
            }
            &&& m.kind == MouseKind::Drag(MouseButton::Left) && (v.screen.selection is None
                || !s.active) ==> after == v
            &&& m.kind == MouseKind::Up(MouseButton::Left) && v.screen.selection is Some
                ==> after.screen.selection == Some((Selection { active: false, ..s }))
            &&& m.kind == MouseKind::Up(MouseButton::Left) && v.screen.selection is None
                ==> after == v
        }),
{
    reveal(AppView::mouse_used);
    reveal(AppView::open_mouse);
    if m.kind == MouseKind::Drag(MouseButton::Left) || m.kind == MouseKind::Up(MouseButton::Left) {
        assert(v.toast_clicked(m) =~= v);
    }
}

/// A left click into the chat folds or unfolds what its row belongs to: reasoning or a
/// report first, then a tool box. On other rows it begins a selection of that cell, and
/// outside the chat and the composer it drops the selection.
pub proof fn clicks_fold_or_select(v: AppView, m: MouseEvent, ctx: MouseContext)
    requires
        has_the_mouse(v),
        m.kind == MouseKind::Down(MouseButton::Left),
        v.screen.chat_area is Some,
        v.composer_target(m) is None,
    ensures
        ({
            let after = v.mouse_used(m, ctx).0;
            let inside = v.screen.chat_area->0.has(m.column as int, m.row as int);
            let row = m.row - v.screen.chat_area->0.y;
            let chip = row < v.clickable_rows.len() && v.clickable_rows[row] is Some;
            let boxed = row < v.box_rows.len() && v.box_rows[row] is Some;
            let i = if chip {
                v.clickable_rows[row]->0 as int
            } else {
                v.box_rows[row]->0 as int
            };
            &&& after.editor == v.editor
            &&& !inside ==> after.screen.selection is None && after.history == v.history
            &&& inside && !chip && !boxed ==> after.history == v.history && after.screen.selection
                == Some(
                (Selection {
                    anchor: (m.column, m.row),
                    focus: (m.column, m.row),
                    active: true,
                }),
            )
            &&& inside && (chip || boxed) ==> after.screen.selection is None
                && after.history.len() == v.history.len() && forall|j: int|
                0 <= j < v.history.len() && j != i ==> #[trigger] after.history[j] == v.history[j]
            &&& inside && chip && i < v.history.len() && v.history[i] is Agent ==> {
                &&& after.history[i] is Agent
                &&& after.history[i]->Agent_expanded == !v.history[i]->Agent_expanded
                &&& after.history[i]->Agent_text == v.history[i]->Agent_text
                &&& after.history[i]->reasoning == v.history[i]->reasoning
                &&& after.history[i]->name == v.history[i]->name
                &&& after.history[i]->Agent_timestamp == v.history[i]->Agent_timestamp
                &&& after.history[i]->think_duration == v.history[i]->think_duration
            }
            &&& inside && chip && i < v.history.len() && v.history[i] is Subagent ==> {
                &&& after.history[i] is Subagent
                &&& after.history[i]->Subagent_expanded == !v.history[i]->Subagent_expanded
                &&& after.history[i]->parent == v.history[i]->parent
                &&& after.history[i]->child == v.history[i]->child
                &&& after.history[i]->outcome == v.history[i]->outcome
            }
            &&& inside && !chip && boxed && i < v.history.len() && v.history[i] is ToolBox ==> {
                &&& after.history[i] is ToolBox
                &&& after.history[i]->ToolBox_expanded == !v.history[i]->ToolBox_expanded
                &&& after.history[i]->calls == v.history[i]->calls
                &&& v.history[i]->ToolBox_expanded ==> after.history[i]->follow
                &&& !v.history[i]->ToolBox_expanded ==> after.history[i]->follow
                    == v.history[i]->follow
            }
        }),
{
    reveal(AppView::mouse_used);
    reveal(AppView::open_mouse);
    reveal(AppView::left_clicked);
    reveal(AppView::chat_clicked);
}

/// Newlines in front of a position.
pub open spec fn newlines_before(s: Seq<char>, n: int) -> nat
    decreases n,
{
    if n <= 0 {
        0
    } else {
        newlines_before(s, n - 1) + (if s[n - 1] == '\n' {
            1nat
        } else {
            0
        })
    }
}

proof fn lemma_no_newlines(s: Seq<char>, a: int, b: int)
    requires
        0 <= a <= b <= s.len(),
        forall|i: int| a <= i < b ==> #[trigger] s[i] != '\n',
    ensures
        newlines_before(s, b) == newlines_before(s, a),
    decreases b - a,
{
    if a < b {
        lemma_no_newlines(s, a, b - 1);
    }
}

proof fn lemma_newlines_grow(s: Seq<char>, a: int, b: int)
    requires
        0 <= a <= b,
    ensures
        newlines_before(s, a) <= newlines_before(s, b),
    decreases b - a,
{
    if a < b {
        lemma_newlines_grow(s, a, b - 1);
    }
}

proof fn lemma_nth_line(s: Seq<char>, line: nat)
    requires
        line <= newlines_before(s, s.len() as int),
    ensures
        0 <= nth_line_start(s, line) <= s.len(),
        nth_line_start(s, line) == 0 || s[nth_line_start(s, line) - 1] == '\n',
        newlines_before(s, nth_line_start(s, line)) == line,
    decreases line,
{
    if line > 0 {
        lemma_nth_line(s, (line - 1) as nat);
        let start = nth_line_start(s, (line - 1) as nat);
        let end = find_from(s, '\n', start);
        lemma_find_from(s, '\n', start);
        lemma_no_newlines(s, start, end);
    }
}

/// A click into the composer puts the cursor into the line of that row, in the column
/// of that cell behind the prompt, or at the end of a shorter line; the text stays.
pub proof fn clicks_place_the_cursor(v: AppView, m: MouseEvent, ctx: MouseContext)
    requires
        has_the_mouse(v),
        m.kind == MouseKind::Down(MouseButton::Left),
        v.screen.input_area is Some,
        v.screen.input_area->0.on_screen(),
        v.editor.wf(),
        ({
            let area = v.screen.input_area->0;
            let top = if v.editor.queue.len() > 0 {
                area.y as int
            } else {
                area.y + 1
            };
            &&& area.x + 1 + display_width(INPUT_PREFIX@) <= m.column < area.x + area.width - 1
            &&& top <= m.row < area.y + area.height - 1
            &&& m.row - top <= newlines_before(
                v.editor.composer.text,
                v.editor.composer.text.len() as int,
            )
        }),
    ensures
        ({
            let area = v.screen.input_area->0;
            let line = if v.editor.queue.len() > 0 {
                m.row - area.y
            } else {
                m.row - area.y - 1
            };
            let col = m.column - area.x - 1 - display_width(INPUT_PREFIX@);
            let after = v.mouse_used(m, ctx).0;
            let s = v.editor.composer.text;
            let pos = after.editor.composer.pos;
            &&& after.editor.composer.text == s
            &&& after.screen.selection is None
            &&& after.history == v.history
            &&& v.editor.composer.vim_enabled ==> after.editor.composer.vim_mode
                is Insert || !(v.editor.composer.vim_mode is Normal)
            &&& exists|a: int, b: int|
                {
                    &&& #[trigger] is_line(s, pos, a, b)
                    &&& newlines_before(s, a) == line
                    &&& pos == if a + col <= b {
                        a + col
                    } else {
                        b
                    }
                }
        }),
{
    reveal(AppView::mouse_used);
    reveal(AppView::open_mouse);
    reveal(AppView::left_clicked);
    reveal(EditorView::clicked);
    let area = v.screen.input_area->0;
    let line = if v.editor.queue.len() > 0 {
        m.row - area.y
    } else {
        m.row - area.y - 1
    };
    let col = m.column - area.x - 1 - display_width(INPUT_PREFIX@);
    let s = v.editor.composer.text;
    let w = v.toast_clicked(m);
    assert(w.composer_target(m) == Some((line, col as int)));
    lemma_nth_line(s, line as nat);
    let a = nth_line_start(s, line as nat);
    lemma_find_from(s, '\n', a);
    let b = line_end(s, a);
    assert(is_line(s, v.mouse_used(m, ctx).0.editor.composer.pos, a, b));
}

/// Moving the mouse and other buttons do nothing to the chat.
pub proof fn other_mouse_events_do_nothing(v: AppView, m: MouseEvent, ctx: MouseContext)
    requires
        has_the_mouse(v),
        m.kind == MouseKind::Moved || m.kind == MouseKind::ScrollLeft || m.kind
            == MouseKind::ScrollRight || m.kind == MouseKind::Up(MouseButton::Right) || m.kind
            == MouseKind::Up(MouseButton::Middle) || m.kind == MouseKind::Drag(MouseButton::Right)
            || m.kind == MouseKind::Drag(MouseButton::Middle),
    ensures
        v.mouse_used(m, ctx) == (v, EffectView::Stay),
{
    reveal(AppView::mouse_used);
    reveal(AppView::open_mouse);
}

} // verus!
