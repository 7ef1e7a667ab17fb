use mycad::ribbon::{command_label, next_hide_victim, overflow_caption, pack_ribbon, PackedGroup, RibbonCommand, RibbonDensity};

struct Measured {
    widths: Vec<f32>,
    priorities: Vec<u8>,
    overflow_width: f32,
}

fn group(commands: Vec<(f32, u8)>, overflow_width: f32) -> Measured {
    Measured {
        widths: commands.iter().map(|c| c.0).collect(),
        priorities: commands.iter().map(|c| c.1).collect(),
        overflow_width,
    }
}

fn group_width(group: &Measured, hidden: &[bool], button_gap: f32) -> f32 {
    let visible: Vec<f32> = group
        .widths
        .iter()
        .enumerate()
        .filter(|(i, _)| !hidden.get(*i).copied().unwrap_or(false))
        .map(|(_, w)| *w)
        .collect();
    let commands_width = if visible.is_empty() {
        0.0
    } else {
        visible.iter().sum::<f32>() + button_gap * (visible.len() - 1) as f32
    };
    if hidden.iter().any(|f| *f) {
        if commands_width <= 0.0 {
            group.overflow_width
        } else {
            commands_width + button_gap + group.overflow_width
        }
    } else {
        commands_width
    }
}

fn groups_fit(widths: &[f32], row_width: f32, max_rows: usize, group_gap: f32) -> bool {
    if widths.is_empty() {
        return true;
    }
    let mut rows_used = 1usize;
    let mut x = 0.0f32;
    for (index, &width) in widths.iter().enumerate() {
        if width > row_width + 0.5 {
            return false;
        }
        if index == 0 {
            x = width;
            continue;
        }
        let need = group_gap + width;
        if x > 0.0 && x + need > row_width {
            rows_used += 1;
            x = width;
            if rows_used > max_rows {
                return false;
            }
        } else {
            x += need;
        }
    }
    rows_used <= max_rows
}

fn pack(groups: &[Measured], available: f32, button_gap: f32, group_gap: f32, rows: usize) -> Vec<PackedGroup> {
    let priorities: Vec<Vec<u8>> = groups.iter().map(|g| g.priorities.clone()).collect();
    pack_ribbon(&priorities, |hidden: &Vec<Vec<bool>>| {
        let widths: Vec<f32> = groups
            .iter()
            .zip(hidden.iter())
            .map(|(g, h)| group_width(g, h, button_gap))
            .collect();
        groups_fit(&widths, available, rows.max(1), group_gap)
    })
}

#[test]
fn overflow_hides_lowest_priority_first() {
    let groups = vec![
        group(vec![(40.0, 0), (40.0, 1)], 36.0),
        group(vec![(50.0, 0), (50.0, 1), (50.0, 4)], 40.0),
    ];
    let packed = pack(&groups, 232.0, 2.0, 5.0, 1);
    assert_eq!(packed[0].visible, vec![0, 1]);
    assert!(packed[0].overflow.is_empty());
    assert_eq!(packed[1].visible, vec![0, 1]);
    assert_eq!(packed[1].overflow, vec![2]);
}

#[test]
fn overflow_collapses_a_group_to_its_menu() {
    let groups = vec![group(vec![(80.0, 0), (80.0, 1), (80.0, 2)], 48.0)];
    let packed = pack(&groups, 50.0, 2.0, 5.0, 1);
    assert!(packed[0].visible.is_empty());
    assert_eq!(packed[0].overflow, vec![0, 1, 2]);
}

#[test]
fn two_rows_keep_more_commands_visible() {
    let groups = vec![
        group(vec![(70.0, 0), (70.0, 1)], 40.0),
        group(vec![(70.0, 0), (70.0, 1)], 40.0),
        group(vec![(70.0, 0), (70.0, 1)], 40.0),
    ];
    let one = pack(&groups, 160.0, 2.0, 5.0, 1);
    let two = pack(&groups, 160.0, 2.0, 5.0, 2);
    let visible = |packed: &[PackedGroup]| packed.iter().map(|g| g.visible.len()).sum::<usize>();
    assert!(visible(&two) > visible(&one));
}

#[test]
fn packing_is_stable_for_nearby_widths() {
    let groups = vec![group(vec![(40.0, 0), (48.0, 1), (56.0, 2), (64.0, 3)], 40.0)];
    let a = pack(&groups, 200.0, 2.0, 5.0, 1);
    let b = pack(&groups, 201.0, 2.0, 5.0, 1);
    assert_eq!(a, b);
    let wider = pack(&groups, 400.0, 2.0, 5.0, 1);
    assert!(wider[0].overflow.is_empty());
    assert_eq!(wider[0].visible.len(), 4);
}

#[test]
fn victims_fold_by_priority_then_position() {
    let priorities = vec![vec![1, 3], vec![3, 0]];
    let hidden = vec![vec![false, false], vec![false, false]];
    assert_eq!(next_hide_victim(&priorities, &hidden), Some((1, 0)));
    let hidden = vec![vec![false, false], vec![false, false]];
    let priorities_low = vec![vec![0, 0], vec![0, 0]];
    assert_eq!(next_hide_victim(&priorities_low, &hidden), Some((1, 1)));
    let all = vec![vec![true, true], vec![true, true]];
    assert_eq!(next_hide_victim(&priorities, &all), None);
}

#[test]
fn labels_follow_the_density() {
    let command = RibbonCommand {
        id: "line",
        label: "Line",
        short_label: "L",
        icon: "",
        tooltip: "Draw a line",
        priority: 0,
        enabled: true,
        active: false,
    };
    assert_eq!(command_label(&command, RibbonDensity::Micro), "L");
    assert_eq!(command_label(&command, RibbonDensity::Compact), "Line");
    assert_eq!(overflow_caption("Draw"), "Draw ▾");
}
