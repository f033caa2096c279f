use logibar::model::{is_shown_before, BatteryState, PollResult};

fn state(name: &str, pid: u16, key: &str, percent: u8) -> BatteryState {
    BatteryState {
        device_key: key.to_string(),
        display_name: name.to_string(),
        pid,
        device_index: 1,
        battery_percent: percent,
        is_charging: false,
    }
}

#[test]
fn devices_are_sorted_by_name_then_pid_then_key() {
    let mut result = PollResult::default();
    result.devices.push(state("b", 1, "1:1", 1));
    result.devices.push(state("a", 2, "2:2", 2));
    result.devices.push(state("a", 2, "2:1", 3));
    result.devices.push(state("a", 1, "1:9", 4));
    result.devices.push(state("", 9, "9:1", 5));
    result.devices.push(state("ab", 0, "0:1", 6));
    result.errors.push("kept".to_string());
    result.sort_devices();
    let order: Vec<u8> = result.devices.iter().map(|d| d.battery_percent).collect();
    assert_eq!(order, vec![5, 4, 3, 2, 6, 1]);
    assert_eq!(result.errors, vec!["kept".to_string()]);
}

#[test]
fn devices_of_one_rank_keep_their_order() {
    let mut result = PollResult::default();
    for percent in [3, 1, 2] {
        result.devices.push(state("same", 1, "1:1", percent));
    }
    result.devices.push(state("first", 1, "1:1", 0));
    result.sort_devices();
    let order: Vec<u8> = result.devices.iter().map(|d| d.battery_percent).collect();
    assert_eq!(order, vec![0, 3, 1, 2]);
}

#[test]
fn the_order_of_names_is_that_of_std() {
    let names = ["", "A", "a", "aa", "b", "Z", "é", "漢"];
    for x in names {
        for y in names {
            assert_eq!(
                is_shown_before(&state(x, 1, "k", 0), &state(y, 1, "k", 0)),
                x < y
            );
        }
    }
}
