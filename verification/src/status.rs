//! Locating the cluster process. The cluster is started through a detached
//! shell invocation and leaves no direct handle, so teardown finds it by
//! parsing the status command's tabular output: a header line, then one row
//! per component; the row whose first column equals the component name
//! carries the process id in its third column.

use crate::text::{
    bytes_eq, parse_u32, parse_u32_spec, split_lines, split_lines_spec, split_ws, split_ws_spec,
};
use vstd::prelude::*;

verus! {

/// The process id a single row yields: the row must have at least three
/// columns, its first column must equal the component name, and its third
/// column must parse as an unsigned integer.
pub open spec fn row_pid_spec(line: Seq<u8>, component: Seq<u8>) -> Option<u32> {
    let cols = split_ws_spec(line);
    if cols.len() >= 3 && cols[0] == component {
        parse_u32_spec(cols[2])
    } else {
        Option::None
    }
}

/// The first row that yields a process id, scanning in order.
pub open spec fn find_pid_spec(rows: Seq<Seq<u8>>, component: Seq<u8>) -> Option<u32>
    decreases rows.len(),
{
    if rows.len() == 0 {
        Option::None
    } else if row_pid_spec(rows[0], component) is Some {
        row_pid_spec(rows[0], component)
    } else {
        find_pid_spec(rows.drop_first(), component)
    }
}

/// What parsing the whole status output yields: the header line is skipped
/// and the remaining rows are scanned in order.
pub open spec fn status_pid_spec(output: Seq<u8>, component: Seq<u8>) -> Option<u32> {
    let lines = split_lines_spec(output);
    if lines.len() <= 1 {
        Option::None
    } else {
        find_pid_spec(lines.skip(1), component)
    }
}

/// Parses raw status output and returns the component's process id, if its
/// row is present and well formed.
pub fn parse_status_output(output: &[u8], component: &[u8]) -> (r: Option<u32>)
    ensures
        r == status_pid_spec(output@, component@),
{
    let lines = split_lines(output);
    let n = lines.len();
    proof {
        assert(lines.deep_view().len() == lines@.len());
    }
    if n <= 1 {
        return None;
    }
    let ghost rows = lines.deep_view().skip(1);
    let mut i: usize = 1;
    while i < n
        invariant
            n == lines@.len(),
            n >= 2,
            1 <= i <= n,
            lines.deep_view().len() == n,
            lines.deep_view() == split_lines_spec(output@),
            rows == lines.deep_view().skip(1),
            find_pid_spec(rows, component@) == find_pid_spec(
                lines.deep_view().skip(i as int),
                component@,
            ),
        decreases n - i,
    {
        proof {
            crate::text::lemma_bytes_deep_view(lines@[i as int]);
            assert(lines.deep_view()[i as int] == lines@[i as int].deep_view());
            assert(lines.deep_view().skip(i as int)[0] == lines.deep_view()[i as int]);
            assert(lines.deep_view().skip(i as int).drop_first() =~= lines.deep_view().skip(
                i + 1,
            ));
        }
        let cols = split_ws(lines[i].as_slice());
        proof {
            assert(cols.deep_view().len() == cols@.len());
        }
        if cols.len() >= 3 && bytes_eq(&cols[0], component) {
            proof {
                crate::text::lemma_bytes_deep_view(cols@[0]);
                crate::text::lemma_bytes_deep_view(cols@[2]);
                assert(cols.deep_view()[0] == cols@[0]@);
                assert(cols.deep_view()[2] == cols@[2]@);
            }
            match parse_u32(cols[2].as_slice()) {
                Some(pid) => {
                    proof {
                        assert(split_ws_spec(lines.deep_view()[i as int]) == cols.deep_view());
                        assert(row_pid_spec(lines.deep_view()[i as int], component@)
                            == Some(pid));
                        assert(find_pid_spec(lines.deep_view().skip(i as int), component@)
                            == Some(pid));
                    }
                    return Some(pid);
                },
                None => {},
            }
        }
        proof {
            if cols@.len() >= 3 {
                crate::text::lemma_bytes_deep_view(cols@[0]);
                crate::text::lemma_bytes_deep_view(cols@[2]);
                assert(cols.deep_view()[0] == cols@[0]@);
                assert(cols.deep_view()[2] == cols@[2]@);
            }
            assert(row_pid_spec(lines.deep_view()[i as int], component@) is None);
        }
        i += 1;
    }
    proof {
        assert(lines.deep_view().skip(n as int) =~= Seq::<Seq<u8>>::empty());
    }
    None
}

/// The component name the cluster is registered under in the status table.
pub open spec fn cluster_component() -> Seq<u8> {
    seq![
        's' as u8,
        'u' as u8,
        'r' as u8,
        'r' as u8,
        'e' as u8,
        'a' as u8,
        'l' as u8,
        'd' as u8,
        'b' as u8,
    ]
}

/// Executable bytes of `cluster_component`.
pub fn cluster_component_bytes() -> (r: Vec<u8>)
    ensures
        r@ == cluster_component(),
{
    let v = vec![
        's' as u8,
        'u' as u8,
        'r' as u8,
        'r' as u8,
        'e' as u8,
        'a' as u8,
        'l' as u8,
        'd' as u8,
        'b' as u8,
    ];
    proof {
        assert(v@ =~= cluster_component());
    }
    v
}

/// Finds the cluster's process id in the status output, the lookup both the
/// interrupt handler and normal teardown rely on.
pub fn cluster_pid_from_status(output: &[u8]) -> (r: Option<u32>)
    ensures
        r == status_pid_spec(output@, cluster_component()),
{
    let component = cluster_component_bytes();
    parse_status_output(output, component.as_slice())
}

} // verus!
