use sshpod::install::{merge_config, render_block};

const START: &str = "# >>> sshpod start";
const END: &str = "# <<< sshpod end";

#[test]
fn block_shape() {
    let block = render_block();
    let lines: Vec<&str> = block.lines().collect();
    assert_eq!(lines.first().copied(), Some(START));
    assert_eq!(lines.last().copied(), Some(END));
    assert!(block.contains("Host *.sshpod"));
    assert!(block.contains("ProxyCommand ~/.local/bin/sshpod proxy --host %h --user %r --port %p"));
    assert!(block.contains("IdentityFile ~/.cache/sshpod/id_ed25519"));
    assert!(block.ends_with('\n'));
}

#[test]
fn merge_into_empty() {
    let block = render_block();
    let merged = merge_config("", &block);
    assert_eq!(merged, format!("{}\n", block.trim_end()));
}

#[test]
fn merge_keeps_other_config_and_appends() {
    let block = render_block();
    let current = "Host example\n  User someone\n\n\n";
    let merged = merge_config(current, &block);
    assert_eq!(
        merged,
        format!("Host example\n  User someone\n\n{}\n", block.trim_end())
    );
}

#[test]
fn merge_replaces_old_block() {
    let block = render_block();
    let current = format!(
        "Host a\n{}\nHost *.sshpod\n  ProxyCommand old-command\n{}\nHost b\n",
        START, END
    );
    let merged = merge_config(&current, &block);
    assert_eq!(merged, format!("Host a\nHost b\n\n{}\n", block.trim_end()));
    assert!(!merged.contains("old-command"));
    assert_eq!(merged.matches(START).count(), 1);
}

#[test]
fn merge_is_idempotent() {
    let block = render_block();
    let current = "Host a\n  Port 2222\n";
    let once = merge_config(current, &block);
    let twice = merge_config(&once, &block);
    assert_eq!(once, twice);

    let empty_once = merge_config("", &block);
    let empty_twice = merge_config(&empty_once, &block);
    assert_eq!(empty_once, empty_twice);
}

#[test]
fn merge_drops_unterminated_block_tail() {
    let block = render_block();
    let current = format!("Host a\n{}\nno end marker after this\n", START);
    let merged = merge_config(&current, &block);
    assert_eq!(merged, format!("Host a\n\n{}\n", block.trim_end()));
}
