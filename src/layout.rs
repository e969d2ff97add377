//! Scrolling and wrapping arithmetic of the file list.

use vstd::prelude::*;

verus! {

/// Offset that keeps line `current` near the middle of `visible` lines out of
/// `total`, without scrolling past the end.
pub open spec fn list_scroll(current: nat, visible: nat, total: nat) -> nat {
    if visible == 0 || total <= visible {
        0
    } else {
        let half = visible / 2;
        let offset = if current >= half {
            (current - half) as nat
        } else {
            0
        };
        let max_offset = (total - visible) as nat;
        if offset <= max_offset {
            offset
        } else {
            max_offset
        }
    }
}

/// The scroll offset of the file list, as `list_scroll` states.
pub fn calculate_scroll_offset(current_line: usize, visible_height: usize, total_lines: usize) -> (r: usize)
    ensures
        r == list_scroll(current_line as nat, visible_height as nat, total_lines as nat),
{
    if visible_height == 0 || total_lines == 0 {
        return 0;
    }
    if total_lines <= visible_height {
        return 0;
    }
    let preferred_position = visible_height / 2;
    let offset = current_line.saturating_sub(preferred_position);
    let max_offset = total_lines.saturating_sub(visible_height);
    if offset <= max_offset {
        offset
    } else {
        max_offset
    }
}

/// Display lines that a text `width` columns wide takes when its first line
/// holds `first` columns and each further line `rest`.
pub open spec fn wrapped_lines(width: nat, first: nat, rest: nat) -> nat {
    if first == 0 || width <= first || rest == 0 {
        1
    } else {
        (1 + (width - first + rest - 1) / (rest as int)) as nat
    }
}

/// The display lines of a wrapped text, as `wrapped_lines` states.
pub fn calculate_wrapped_lines(text_display_width: usize, first_line_width: usize, continuation_width: usize) -> (r: usize)
    ensures
        r == wrapped_lines(text_display_width as nat, first_line_width as nat, continuation_width as nat),
{
    if first_line_width == 0 {
        return 1;
    }
    if text_display_width <= first_line_width {
        1
    } else {
        let remaining = text_display_width - first_line_width;
        if continuation_width == 0 {
            1
        } else {
            let q = remaining / continuation_width;
            let extra = if remaining % continuation_width == 0 {
                q
            } else {
                q + 1
            };
            let ghost rm = remaining as int;
            let ghost cw = continuation_width as int;
            let ghost ex = extra as int;
            assert(ex == (rm + cw - 1) / cw) by (nonlinear_arith)
                requires
                    cw > 0,
                    q as int == rm / cw,
                    ex == (if rm % cw == 0 { q as int } else { q + 1 }),
            ;
            assert(ex <= rm) by (nonlinear_arith)
                requires
                    cw > 0,
                    rm > 0,
                    q as int == rm / cw,
                    ex == (if rm % cw == 0 { q as int } else { q + 1 }),
            ;
            1 + extra
        }
    }
}

} // verus!
