use worldgen::terminal::scene::button::Button;
use worldgen::terminal::scene::{centered_text, Scene, SceneType};

const ON: &str = "\x1B[47;30m";
const OFF: &str = "\x1B[0m";

fn strings(v: &[&str]) -> Vec<String> {
    v.iter().map(|s| s.to_string()).collect()
}

#[test]
fn buttons() {
    let b = Button::new(3, -1);
    assert_eq!(b.content_id, 3);
    assert_eq!(b.next_scene_id, -1);
    assert_eq!(b.clone(), Button::new(3, -1));
}

#[test]
fn every_second_piece_is_a_button() {
    let found = Scene::find_buttons(&"a#b#c#d#e".to_string());
    assert_eq!(found, vec![Button::new(1, 0), Button::new(3, 0)]);
    assert!(Scene::find_buttons(&String::new()).is_empty());
    assert_eq!(Scene::find_buttons(&"#x".to_string()), vec![Button::new(1, 0)]);
}

#[test]
fn new_scene_is_not_laid_out() {
    let s = Scene::new("#Start#\n#Quit#".to_string(), SceneType::Settings, vec![2, -1]);
    assert_eq!(s.content, "#Start#\n#Quit#");
    assert!(s.modified_content.is_empty());
    assert_eq!(s.scene_type, SceneType::Settings);
    assert_eq!(s.buttons, vec![Button::new(1, 0), Button::new(3, 0)]);
    assert_eq!(s.current_button_id, 0);
    assert_eq!(s.next_scene_id_to_button_id, vec![2, -1]);
    assert_eq!(s.get_printable_content(), "");
}

#[test]
fn centering_lines() {
    assert_eq!(centered_text("ab\n#x#", 6), "  ab  \n #x#  \n");
    assert_eq!(centered_text("abcdef\nab", 6), "  ab  \n");
    assert_eq!(centered_text("", 3), "   \n");
}

#[test]
fn centering_a_scene_selects_its_first_button() {
    let mut s = Scene::new("ab\n#x#".to_string(), SceneType::Settings, vec![7]);
    assert!(s.can_center((6, 10)));
    s.center_content((6, 10));
    assert_eq!(
        s.modified_content,
        strings(&["  ab  \n ", &format!("{}x{}", ON, OFF), "  \n"])
    );
    assert_eq!(s.buttons, vec![Button::new(1, 7)]);
    assert_eq!(
        s.get_printable_content(),
        format!("  ab  \n {}x{}  \n", ON, OFF)
    );
}

#[test]
fn centering_needs_a_target_for_every_button() {
    let s = Scene::new("#a#\n#b#".to_string(), SceneType::Settings, vec![1]);
    assert!(!s.can_center((20, 10)));
    assert!(s.can_center((3, 10)));
}

#[test]
fn main_menu_layout() {
    let content = "\
╭────────────────────╮
│ World-Gen Reloaded │
│                    │
│    Version: 0.1    │
╰────────────────────╯
#Start#
#Settings#
#Quit#";
    let mut s = Scene::new(content.to_string(), SceneType::Settings, vec![2, 1, -1]);
    assert!(s.can_center((30, 20)));
    s.center_content((30, 20));
    assert_eq!(s.buttons, vec![Button::new(1, 2), Button::new(3, 1), Button::new(5, -1)]);
    assert_eq!(s.modified_content.len(), 7);
    assert_eq!(s.modified_content[1], format!("{}Start{}", ON, OFF));
    assert_eq!(s.modified_content[3], "Settings");
    assert!(s.modified_content[0].starts_with("    ╭"));
    assert!(s.modified_content[0].ends_with("\n           "));
}

#[test]
fn select_and_deselect() {
    let mut s = Scene::new("#a##b##c#".to_string(), SceneType::Settings, vec![0, 0, 0]);
    s.center_content((20, 5));
    assert_eq!(s.modified_content[1], format!("{}a{}", ON, OFF));
    s.deselect_button(1);
    assert_eq!(s.modified_content[1], "a");
    s.select_button(3);
    assert_eq!(s.modified_content[3], format!("{}b{}", ON, OFF));
    s.select_button(3);
    assert_eq!(s.modified_content[3], format!("{}{}b{}{}", ON, ON, OFF, OFF));
    s.deselect_button(3);
    assert_eq!(s.modified_content[3], "b");
}

#[test]
fn selection_wraps_around() {
    let mut s = Scene::new("#a##b##c#".to_string(), SceneType::Settings, vec![0, 0, 0]);
    assert_eq!(s.buttons.len(), 3);
    s.button_up();
    assert_eq!(s.current_button_id, 2);
    s.button_down();
    assert_eq!(s.current_button_id, 0);
    s.button_down();
    s.button_down();
    assert_eq!(s.current_button_id, 2);
    s.button_down();
    assert_eq!(s.current_button_id, 0);
    s.current_button_id = 9;
    s.button_down();
    assert_eq!(s.current_button_id, 0);
}

#[test]
fn selection_steps_up_without_buttons() {
    let mut s = Scene::new("no buttons".to_string(), SceneType::Settings, vec![]);
    assert!(s.buttons.is_empty());
    s.current_button_id = 2;
    s.button_up();
    assert_eq!(s.current_button_id, 1);
}

#[test]
fn centred_lines_are_as_wide_as_the_terminal() {
    let text = centered_text("a\nbcd\n\n#Start#\ntoo wide for it", 12);
    let lines: Vec<&str> = text.split_terminator('\n').collect();
    assert_eq!(lines.len(), 4);
    for line in lines {
        assert_eq!(line.chars().count(), 12);
    }
}

#[test]
fn deselecting_a_selected_piece_restores_it() {
    let mut s = Scene::new("#a##b c##d#".to_string(), SceneType::Settings, vec![0, 0, 0]);
    s.center_content((20, 5));
    let before = s.modified_content.clone();
    s.select_button(3);
    s.deselect_button(3);
    assert_eq!(s.modified_content, before);
}
