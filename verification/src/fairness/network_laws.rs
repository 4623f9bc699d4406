//! What the pods of the network fairness measurement are told, and where they
//! are told it.

use super::network::{
    await_benchmark_ip, await_server_ip, benchmark_pair_step, benchmark_pod, client_name,
    client_pod, client_script, clients_step, completion_step, figures_from_end, figures_in,
    has_completed, line_figures, network_settings, sample_in, samples_in, server_name, server_pod,
    server_script, servers_created, servers_ready, servers_step, ClientPlanView,
    FairnessNetworkConfig, FigureView, SampleView, BENCHMARK_IP_ATTEMPTS, SERVER_IP_ATTEMPTS,
};
use crate::cluster::{ClusterReplyView, ClusterRequestView, ProgressView, Side};
use crate::json::JsonView;
use crate::text::{decimal, decimal_reads_back, has_text, occurs_at};
use crate::words::{is_space, parts, trimmed};
use crate::words_laws::{
    a_character_parts_two_texts, a_text_without_the_character_is_whole, trimming_keeps_the_rest,
};
use vstd::prelude::*;
use vstd::string::*;

verus! {

/// The container of a pod that has one.
pub open spec fn only_container(pod: JsonView) -> Option<JsonView> {
    match pod.field("spec"@) {
        Some(spec_part) => match spec_part.field("containers"@) {
            Some(JsonView::Array(containers)) => if containers.len() == 1 {
                Some(containers[0])
            } else {
                None
            },
            _ => None,
        },
        None => None,
    }
}

/// The Python script that a pod runs.
pub open spec fn python_of(pod: JsonView) -> Option<Seq<char>> {
    match only_container(pod) {
        Some(container) => match container.field("command"@) {
            Some(JsonView::Array(command)) => if command.len() == 3 && command[0]
                == JsonView::Text("python3"@) && command[1] == JsonView::Text("-c"@)
                && command[2] is Text {
                Some(command[2]->Text_0)
            } else {
                None
            },
            _ => None,
        },
        None => None,
    }
}

/// The name that a pod's manifest gives it.
pub open spec fn name_of_pod(pod: JsonView) -> Option<Seq<char>> {
    match pod.field("metadata"@) {
        Some(metadata) => match metadata.field("name"@) {
            Some(JsonView::Text(name)) => Some(name),
            _ => None,
        },
        None => None,
    }
}

/// The names of fields in a pod's manifest differ.
proof fn field_names_differ()
    ensures
        "apiVersion"@ != "metadata"@,
        "apiVersion"@ != "spec"@,
        "kind"@ != "metadata"@,
        "kind"@ != "spec"@,
        "metadata"@ != "spec"@,
        "restartPolicy"@ != "containers"@,
        "name"@ != "command"@,
        "image"@ != "command"@,
        "resources"@ != "command"@,
        "ports"@ != "command"@,
        "resources"@ != "ports"@,
        "args"@ != "ports"@,
        "name"@ != "args"@,
        "image"@ != "args"@,
{
    reveal_strlit("apiVersion");
    reveal_strlit("kind");
    reveal_strlit("metadata");
    reveal_strlit("spec");
    reveal_strlit("restartPolicy");
    reveal_strlit("containers");
    reveal_strlit("name");
    reveal_strlit("image");
    reveal_strlit("command");
    reveal_strlit("resources");
    reveal_strlit("ports");
    reveal_strlit("args");
    assert("apiVersion"@.len() == 10 && "kind"@.len() == 4 && "metadata"@.len() == 8
        && "spec"@.len() == 4 && "restartPolicy"@.len() == 13 && "containers"@.len() == 10
        && "name"@.len() == 4 && "image"@.len() == 5 && "command"@.len() == 7
        && "resources"@.len() == 9 && "ports"@.len() == 5 && "args"@.len() == 4);
    assert("kind"@[0] == 'k' && "spec"@[0] == 's' && "name"@[0] == 'n' && "args"@[0] == 'a');
}

/// What a server or a client runs is the script that was written for it.
pub proof fn the_pods_run_their_scripts(
    index: nat,
    server_ip: Seq<char>,
    plan: ClientPlanView,
)
    ensures
        name_of_pod(client_pod(index, server_ip, plan)) == Some(
            "net-fairness-cli-"@ + decimal(index),
        ),
        python_of(client_pod(index, server_ip, plan)) == Some(client_script(server_ip, plan)),
        name_of_pod(server_pod(index)) == Some("net-fairness-srv-"@ + decimal(index)),
        python_of(server_pod(index)) == Some(server_script()),
{
    field_names_differ();
}

/// A setting stands in a script between what comes before it and what comes
/// after it.
proof fn a_setting_stands_in_its_line(
    script: Seq<char>,
    before: Seq<char>,
    value: Seq<char>,
    after: Seq<char>,
    opening: Seq<char>,
    closing: Seq<char>,
)
    requires
        script == before + value + after,
        opening.len() <= before.len(),
        before.subrange(before.len() - opening.len(), before.len() as int) == opening,
        closing.len() <= after.len(),
        after.subrange(0, closing.len() as int) == closing,
    ensures
        has_text(script, opening + value + closing),
{
    let at: int = before.len() - opening.len();
    let line = opening + value + closing;
    assert forall|k: int| 0 <= k < opening.len() implies before[at + k] == opening[k] by {
        assert(before.subrange(at, before.len() as int)[k] == before[at + k]);
    }
    assert forall|k: int| 0 <= k < closing.len() implies after[k] == closing[k] by {
        assert(after.subrange(0, closing.len() as int)[k] == after[k]);
    }
    assert(script.subrange(at, at + line.len()) =~= line);
    assert(occurs_at(script, line, at));
}

/// The client's script up to the server's address.
spec fn script_head() -> Seq<char> {
    "\nimport asyncio\nimport time\nimport sys\nimport gc\nfrom array import array\nfrom collections import deque\n\n# The cyclic collector is off for the whole run.\n#\n# This client keeps a sample per packet, and CPython's generational GC scans\n# *all* tracked objects on a gen-2 pass — inside the event loop, so the loop\n# stops and every request in flight completes late together. It showed up as\n# bursts of thousands of consecutive samples over 10ms while p50 stayed at\n# 0.7ms, and those bursts decided p95. Refcounting frees everything here; the\n# collector only exists for reference cycles, which floats in an array do not\n# make.\ngc.disable()\ngc.freeze()\n\nSERVER = \""@
}

/// The client's script between the size of its packets and the rate that it
/// prints.
spec fn script_middle() -> Seq<char> {
    "   # payload size in bytes\nMAX_IN_FLIGHT = 1000          # per stream\n\n# One packet, built once. Its contents carry no meaning: replies are matched to\n# sends by order, not by anything written in them.\nPKT = b'X' * max(1, PACKET_SIZE - 1) + b'\\n'\n\nprint(\"=== TCP Ping Client Configuration ===\", flush=True)\nprint(f\"Server: {SERVER}:{PORT}\", flush=True)\nprint(f\"Duration: {DURATION} seconds\", flush=True)\nprint(f\"Streams: {STREAMS} (async connections)\", flush=True)\nprint(f\"Rate per stream: {RATE_PER_STREAM} pkt/s\", flush=True)\nprint(f\"Packet size: {PACKET_SIZE} bytes\", flush=True)\nprint(f\"Rate limit: "@
}

/// The rest of the client's script.
spec fn script_end() -> Seq<char> {
    "\", flush=True)\nprint(f\"Pipelining: enabled (max {MAX_IN_FLIGHT} in-flight)\", flush=True)\nprint(\"======================================\", flush=True)\n\nasync def sender(writer, sent_at, start, end):\n    \"\"\"Pace packets to the target rate, sending whatever is due in one batch.\"\"\"\n    clock = time.perf_counter\n    write = writer.write\n    drain = writer.drain\n    seq = 0\n    while True:\n        now = clock()\n        if now >= end:\n            break\n        if len(sent_at) >= MAX_IN_FLIGHT:\n            await asyncio.sleep(0.0005)\n            continue\n        if RATE_PER_STREAM:\n            due = int((now - start) * RATE_PER_STREAM) - seq\n            if due <= 0:\n                # Ahead of schedule: wait for the next packet to fall due.\n                ahead = (seq + 1) / RATE_PER_STREAM - (now - start)\n                await asyncio.sleep(min(max(ahead, 0.0002), 0.005))\n                continue\n        else:\n            due = 256\n        for _ in range(due):\n            sent_at.append(clock())\n            write(PKT)\n            seq += 1\n        await drain()\n    return seq\n\nasync def receiver(reader, sent_at, ts, rtt, start, stop):\n    \"\"\"One reply per send, in order, so matching is a popleft.\"\"\"\n    clock = time.perf_counter\n    readline = reader.readline\n    while True:\n        # One await per packet, deliberately.\n        #\n        # Reading larger chunks and counting newlines is cheaper — but only by\n        # about 3%, and it changes what is measured: every packet in a chunk\n        # then shares the instant the application saw them, which drops the\n        # reported latency roughly tenfold because the client's own\n        # serialisation backlog stops being counted. Cheaper numbers that mean\n        # something else are not a saving.\n        line = await readline()\n        if not line:\n            break\n        now = clock()\n        if not sent_at:\n            continue\n        sent = sent_at.popleft()\n        ts.append(sent - start)\n        rtt.append((now - sent) * 1000.0)\n        if stop.is_set() and not sent_at:\n            break\n    return len(rtt)\n\nasync def run_stream(stream_id, all_results):\n    try:\n        reader, writer = await asyncio.open_connection(SERVER, PORT)\n    except Exception as e:\n        print(f\"[Stream {stream_id}] Connection failed: {e}\", file=sys.stderr, flush=True)\n        return\n\n    start = time.perf_counter()\n    end = start + DURATION\n    sent_at = deque()\n    ts = array('d')\n    rtt = array('d')\n    stop = asyncio.Event()\n    sent = 0\n    received = 0\n\n    try:\n        send_task = asyncio.create_task(sender(writer, sent_at, start, end))\n        recv_task = asyncio.create_task(receiver(reader, sent_at, ts, rtt, start, stop))\n        sent = await send_task\n        stop.set()\n        try:\n            # One timer for the whole stream rather than one per packet.\n            received = await asyncio.wait_for(recv_task, timeout=5.0)\n        except asyncio.TimeoutError:\n            recv_task.cancel()\n    except Exception as e:\n        print(f\"[Stream {stream_id}] Error: {e}\", file=sys.stderr, flush=True)\n    finally:\n        writer.close()\n        try:\n            await writer.wait_closed()\n        except Exception:\n            pass\n\n    # Formatted once, at the end, rather than per packet.\n    append = all_results.append\n    for i in range(len(rtt)):\n        append(\"%.3f:%.3f:0\" % (ts[i], rtt[i]))\n    # Anything still outstanding never came back.\n    for sent_time in sent_at:\n        append(\"%.3f:2000.0:1\" % (sent_time - start))\n    print(\n        f\"[Stream {stream_id}] Sent {sent}, received {received}, lost {len(sent_at)}\",\n        file=sys.stderr,\n        flush=True,\n    )\n\nasync def main():\n    print(f\"Launching {STREAMS} pipelined streams...\", flush=True)\n    all_results = []\n    await asyncio.gather(*[run_stream(i, all_results) for i in range(STREAMS)])\n    print(\"All streams completed.\", flush=True)\n\n    total_errors = sum(1 for r in all_results if r.endswith(\":1\"))\n    print(f\"=== Summary ===\", file=sys.stderr, flush=True)\n    print(f\"Total packets: {len(all_results)}\", file=sys.stderr, flush=True)\n    print(f\"Total errors: {total_errors}\", file=sys.stderr, flush=True)\n    print(f\"===============\", file=sys.stderr, flush=True)\n\n    print(\"RESULTS:\" + \",\".join(all_results) + \",\", flush=True)\n\nasyncio.run(main())\n"@
}

proof fn the_head_ends_with_the_server()
    ensures
        ({
            let head = script_head();
            head.len() >= 11 && head.subrange(head.len() - 11, head.len() as int)
                == "\nSERVER = \""@
        }),
{
    reveal_strlit(
        "\nimport asyncio\nimport time\nimport sys\nimport gc\nfrom array import array\nfrom collections import deque\n\n# The cyclic collector is off for the whole run.\n#\n# This client keeps a sample per packet, and CPython's generational GC scans\n# *all* tracked objects on a gen-2 pass — inside the event loop, so the loop\n# stops and every request in flight completes late together. It showed up as\n# bursts of thousands of consecutive samples over 10ms while p50 stayed at\n# 0.7ms, and those bursts decided p95. Refcounting frees everything here; the\n# collector only exists for reference cycles, which floats in an array do not\n# make.\ngc.disable()\ngc.freeze()\n\nSERVER = \"",
    );
    reveal_strlit("\nSERVER = \"");
    let head = script_head();
    assert(head.len() == 661);
    assert(head.subrange(661 - 11, 661 as int) =~= "\nSERVER = \""@);
}

/// The client's script with a gap where setting number `k` stands: what comes
/// before the setting.
spec fn before_setting(server_ip: Seq<char>, plan: ClientPlanView, k: int) -> Seq<char> {
    let head = script_head();
    let to_duration = head + server_ip + "\"\nPORT = 9999\nDURATION = "@;
    let to_streams = to_duration + decimal(plan.duration) + "\nSTREAMS = "@;
    let to_rate = to_streams + decimal(plan.streams) + "\nRATE_PER_STREAM = "@;
    let to_size = to_rate + plan.rate_per_stream + "  # packets per second per stream, None = unlimited\nPACKET_SIZE = "@;
    if k == 0 {
        head
    } else if k == 1 {
        to_duration
    } else if k == 2 {
        to_streams
    } else if k == 3 {
        to_rate
    } else {
        to_size
    }
}

/// What comes after it.
spec fn after_setting(plan: ClientPlanView, k: int) -> Seq<char> {
    let rest = script_middle() + plan.total_rate + script_end();
    let from_rate = "  # packets per second per stream, None = unlimited\nPACKET_SIZE = "@ + decimal(plan.packet_size) + rest;
    let from_streams = "\nRATE_PER_STREAM = "@ + plan.rate_per_stream + from_rate;
    let from_duration = "\nSTREAMS = "@ + decimal(plan.streams) + from_streams;
    let from_server = "\"\nPORT = 9999\nDURATION = "@ + decimal(plan.duration) + from_duration;
    if k == 0 {
        from_server
    } else if k == 1 {
        from_duration
    } else if k == 2 {
        from_streams
    } else if k == 3 {
        from_rate
    } else {
        rest
    }
}

/// A setting of the client's script.
spec fn setting(server_ip: Seq<char>, plan: ClientPlanView, k: int) -> Seq<char> {
    if k == 0 {
        server_ip
    } else if k == 1 {
        decimal(plan.duration)
    } else if k == 2 {
        decimal(plan.streams)
    } else if k == 3 {
        plan.rate_per_stream
    } else {
        decimal(plan.packet_size)
    }
}

proof fn regrouped(start: Seq<char>, name: Seq<char>, value: Seq<char>, rest: Seq<char>)
    ensures
        start + name + value + rest == start + (name + value + rest),
{
    assert(start + name + value + rest =~= start + (name + value + rest));
}

proof fn the_script_is_taken_apart(server_ip: Seq<char>, plan: ClientPlanView, k: int)
    requires
        0 <= k < 5,
    ensures
        client_script(server_ip, plan) == before_setting(server_ip, plan, k) + setting(
            server_ip,
            plan,
            k,
        ) + after_setting(plan, k),
    decreases 5 - k,
{
    if k == 4 {
        regrouped(
            before_setting(server_ip, plan, 4) + setting(server_ip, plan, 4),
            script_middle(),
            plan.total_rate,
            script_end(),
        );
    } else {
        the_script_is_taken_apart(server_ip, plan, k + 1);
        regrouped(
            before_setting(server_ip, plan, k) + setting(server_ip, plan, k),
            if k == 0 {
                "\"\nPORT = 9999\nDURATION = "@
            } else if k == 1 {
                "\nSTREAMS = "@
            } else if k == 2 {
                "\nRATE_PER_STREAM = "@
            } else {
                "  # packets per second per stream, None = unlimited\nPACKET_SIZE = "@
            },
            setting(server_ip, plan, k + 1),
            after_setting(plan, k + 1),
        );
    }
}

/// The names that the script gives its settings.
spec fn opening_of(k: int) -> Seq<char> {
    if k == 0 {
        "\nSERVER = \""@
    } else if k == 1 {
        "\nDURATION = "@
    } else if k == 2 {
        "\nSTREAMS = "@
    } else if k == 3 {
        "\nRATE_PER_STREAM = "@
    } else {
        "\nPACKET_SIZE = "@
    }
}

/// What closes the line of a setting.
spec fn closing_of(k: int) -> Seq<char> {
    if k == 0 {
        "\"\n"@
    } else if k == 1 {
        "\n"@
    } else if k == 2 {
        "\n"@
    } else if k == 3 {
        "  # packets per second per stream"@
    } else {
        "   # payload size in bytes\n"@
    }
}

proof fn ends_with(a: Seq<char>, b: Seq<char>, opening: Seq<char>)
    requires
        opening.len() <= b.len(),
        b.subrange(b.len() - opening.len(), b.len() as int) == opening,
    ensures
        opening.len() <= (a + b).len(),
        (a + b).subrange((a + b).len() - opening.len(), (a + b).len() as int) == opening,
{
    assert((a + b).subrange((a + b).len() - opening.len(), (a + b).len() as int) =~= b.subrange(
        b.len() - opening.len(),
        b.len() as int,
    ));
}

proof fn starts_with(a: Seq<char>, b: Seq<char>, closing: Seq<char>)
    requires
        closing.len() <= a.len(),
        a.subrange(0, closing.len() as int) == closing,
    ensures
        closing.len() <= (a + b).len(),
        (a + b).subrange(0, closing.len() as int) == closing,
{
    assert((a + b).subrange(0, closing.len() as int) =~= a.subrange(0, closing.len() as int));
}

proof fn the_script_names_its_settings(server_ip: Seq<char>, plan: ClientPlanView, k: int)
    requires
        0 <= k < 5,
    ensures
        ({
            let before = before_setting(server_ip, plan, k);
            let after = after_setting(plan, k);
            let (opening, closing) = (opening_of(k), closing_of(k));
            &&& opening.len() <= before.len()
            &&& before.subrange(before.len() - opening.len(), before.len() as int) == opening
            &&& closing.len() <= after.len()
            &&& after.subrange(0, closing.len() as int) == closing
        }),
{
    reveal_strlit("\"\nPORT = 9999\nDURATION = ");
    reveal_strlit("\nSTREAMS = ");
    reveal_strlit("\nRATE_PER_STREAM = ");
    reveal_strlit("  # packets per second per stream, None = unlimited\nPACKET_SIZE = ");
    reveal_strlit("\nSERVER = \"");
    reveal_strlit("\nDURATION = ");
    reveal_strlit("\nSTREAMS = ");
    reveal_strlit("\nRATE_PER_STREAM = ");
    reveal_strlit("\nPACKET_SIZE = ");
    reveal_strlit("\"\n");
    reveal_strlit("\n");
    reveal_strlit("  # packets per second per stream");
    reveal_strlit("   # payload size in bytes\n");
    the_head_ends_with_the_server();
    the_tail_starts_with_the_unit();
    let head = script_head();
    let a1 = head + server_ip;
    let a2 = a1 + "\"\nPORT = 9999\nDURATION = "@ + decimal(plan.duration);
    let a3 = a2 + "\nSTREAMS = "@ + decimal(plan.streams);
    let a4 = a3 + "\nRATE_PER_STREAM = "@ + plan.rate_per_stream;
    assert("\"\nPORT = 9999\nDURATION = "@.subrange(13, 25) =~= "\nDURATION = "@);
    ends_with(a1, "\"\nPORT = 9999\nDURATION = "@, "\nDURATION = "@);
    assert("\nSTREAMS = "@.subrange(0, 11) =~= "\nSTREAMS = "@);
    ends_with(a2, "\nSTREAMS = "@, "\nSTREAMS = "@);
    assert("\nRATE_PER_STREAM = "@.subrange(0, 19) =~= "\nRATE_PER_STREAM = "@);
    ends_with(a3, "\nRATE_PER_STREAM = "@, "\nRATE_PER_STREAM = "@);
    assert("  # packets per second per stream, None = unlimited\nPACKET_SIZE = "@.subrange(51, 66) =~= "\nPACKET_SIZE = "@);
    ends_with(a4, "  # packets per second per stream, None = unlimited\nPACKET_SIZE = "@, "\nPACKET_SIZE = "@);
    let rest = script_middle() + plan.total_rate + script_end();
    let b3 = decimal(plan.packet_size) + rest;
    let b2 = plan.rate_per_stream + ("  # packets per second per stream, None = unlimited\nPACKET_SIZE = "@ + b3);
    let b1 = decimal(plan.streams) + ("\nRATE_PER_STREAM = "@ + b2);
    let b0 = decimal(plan.duration) + ("\nSTREAMS = "@ + b1);
    assert("\"\nPORT = 9999\nDURATION = "@.subrange(0, 2) =~= "\"\n"@);
    starts_with("\"\nPORT = 9999\nDURATION = "@, b0, "\"\n"@);
    assert("\nSTREAMS = "@.subrange(0, 1) =~= "\n"@);
    starts_with("\nSTREAMS = "@, b1, "\n"@);
    assert("\nRATE_PER_STREAM = "@.subrange(0, 1) =~= "\n"@);
    starts_with("\nRATE_PER_STREAM = "@, b2, "\n"@);
    assert("  # packets per second per stream, None = unlimited\nPACKET_SIZE = "@.subrange(0, 33) =~= "  # packets per second per stream"@);
    starts_with("  # packets per second per stream, None = unlimited\nPACKET_SIZE = "@, b3, "  # packets per second per stream"@);
    starts_with(script_middle(), plan.total_rate, "   # payload size in bytes\n"@);
    starts_with(script_middle() + plan.total_rate, script_end(), "   # payload size in bytes\n"@);
    assert(after_setting(plan, 0) =~= "\"\nPORT = 9999\nDURATION = "@ + b0);
    assert(after_setting(plan, 1) =~= "\nSTREAMS = "@ + b1);
    assert(after_setting(plan, 2) =~= "\nRATE_PER_STREAM = "@ + b2);
    assert(after_setting(plan, 3) =~= "  # packets per second per stream, None = unlimited\nPACKET_SIZE = "@ + b3);
}

proof fn the_tail_starts_with_the_unit()
    ensures
        ({
            let tail = script_middle();
            let closing = "   # payload size in bytes\n"@;
            closing.len() <= tail.len() && tail.subrange(0, closing.len() as int) == closing
        }),
{
    reveal_strlit(
        "   # payload size in bytes\nMAX_IN_FLIGHT = 1000          # per stream\n\n# One packet, built once. Its contents carry no meaning: replies are matched to\n# sends by order, not by anything written in them.\nPKT = b'X' * max(1, PACKET_SIZE - 1) + b'\\n'\n\nprint(\"=== TCP Ping Client Configuration ===\", flush=True)\nprint(f\"Server: {SERVER}:{PORT}\", flush=True)\nprint(f\"Duration: {DURATION} seconds\", flush=True)\nprint(f\"Streams: {STREAMS} (async connections)\", flush=True)\nprint(f\"Rate per stream: {RATE_PER_STREAM} pkt/s\", flush=True)\nprint(f\"Packet size: {PACKET_SIZE} bytes\", flush=True)\nprint(f\"Rate limit: ",
    );
    reveal_strlit("   # payload size in bytes\n");
    assert(script_middle().subrange(0, 27) =~= "   # payload size in bytes\n"@);
}

/// Each setting stands in its own line: the script that a client's pod runs
/// assigns to the server, the duration, the streams, the rate and the packet
/// size what the plan and the caller say of each.
pub proof fn the_client_is_told_its_plan(index: nat, server_ip: Seq<char>, plan: ClientPlanView)
    ensures
        match python_of(client_pod(index, server_ip, plan)) {
            Some(script) => {
                &&& has_text(script, "\nSERVER = \""@ + server_ip + "\"\n"@)
                &&& has_text(script, "\nDURATION = "@ + decimal(plan.duration) + "\n"@)
                &&& has_text(script, "\nSTREAMS = "@ + decimal(plan.streams) + "\n"@)
                &&& has_text(
                    script,
                    "\nRATE_PER_STREAM = "@ + plan.rate_per_stream
                        + "  # packets per second per stream"@,
                )
                &&& has_text(
                    script,
                    "\nPACKET_SIZE = "@ + decimal(plan.packet_size)
                        + "   # payload size in bytes\n"@,
                )
            },
            None => false,
        },
{
    the_pods_run_their_scripts(index, server_ip, plan);
    let script = client_script(server_ip, plan);
    assert forall|k: int| 0 <= k < 5 implies has_text(
        script,
        #[trigger] opening_of(k) + setting(server_ip, plan, k) + closing_of(k),
    ) by {
        the_script_is_taken_apart(server_ip, plan, k);
        the_script_names_its_settings(server_ip, plan, k);
        a_setting_stands_in_its_line(
            script,
            before_setting(server_ip, plan, k),
            setting(server_ip, plan, k),
            after_setting(plan, k),
            opening_of(k),
            closing_of(k),
        );
    }
    assert(has_text(script, opening_of(0) + setting(server_ip, plan, 0) + closing_of(0)));
    assert(has_text(script, opening_of(1) + setting(server_ip, plan, 1) + closing_of(1)));
    assert(has_text(script, opening_of(2) + setting(server_ip, plan, 2) + closing_of(2)));
    assert(has_text(script, opening_of(3) + setting(server_ip, plan, 3) + closing_of(3)));
    assert(has_text(script, opening_of(4) + setting(server_ip, plan, 4) + closing_of(4)));
}

/// The two texts are the same but for one place, at which `opening` is followed
/// by `x` in the first and by `y` in the second.
pub open spec fn differ_only_behind(
    first: Seq<char>,
    second: Seq<char>,
    opening: Seq<char>,
    x: Seq<char>,
    y: Seq<char>,
) -> bool {
    exists|before: Seq<char>, after: Seq<char>|
        first == #[trigger] (before + opening + x + after) && second == before + opening + y
            + after
}

proof fn one_place_differs(
    before: Seq<char>,
    after: Seq<char>,
    opening: Seq<char>,
    x: Seq<char>,
    y: Seq<char>,
)
    requires
        opening.len() <= before.len(),
        before.subrange(before.len() - opening.len(), before.len() as int) == opening,
    ensures
        differ_only_behind(before + x + after, before + y + after, opening, x, y),
{
    let start = before.take(before.len() - opening.len());
    assert(start + opening =~= before);
    assert(before + x + after == start + opening + x + after);
}

/// A setting moves its own line and no other: plans that differ in one setting
/// alone give scripts that differ behind the name of that setting alone.
pub proof fn each_setting_moves_its_own_line(
    server_ip: Seq<char>,
    plan: ClientPlanView,
    other_ip: Seq<char>,
    other: ClientPlanView,
)
    ensures
        ({
            let script = client_script(server_ip, plan);
            &&& differ_only_behind(
                script,
                client_script(other_ip, plan),
                "\nSERVER = \""@,
                server_ip,
                other_ip,
            )
            &&& differ_only_behind(
                script,
                client_script(server_ip, ClientPlanView { duration: other.duration, ..plan }),
                "\nDURATION = "@,
                decimal(plan.duration),
                decimal(other.duration),
            )
            &&& differ_only_behind(
                script,
                client_script(server_ip, ClientPlanView { streams: other.streams, ..plan }),
                "\nSTREAMS = "@,
                decimal(plan.streams),
                decimal(other.streams),
            )
            &&& differ_only_behind(
                script,
                client_script(
                    server_ip,
                    ClientPlanView { rate_per_stream: other.rate_per_stream, ..plan },
                ),
                "\nRATE_PER_STREAM = "@,
                plan.rate_per_stream,
                other.rate_per_stream,
            )
            &&& differ_only_behind(
                script,
                client_script(server_ip, ClientPlanView { packet_size: other.packet_size, ..plan }),
                "\nPACKET_SIZE = "@,
                decimal(plan.packet_size),
                decimal(other.packet_size),
            )
        }),
{
    let moved = |k: int| {
        if k == 0 {
            (other_ip, plan)
        } else if k == 1 {
            (server_ip, ClientPlanView { duration: other.duration, ..plan })
        } else if k == 2 {
            (server_ip, ClientPlanView { streams: other.streams, ..plan })
        } else if k == 3 {
            (server_ip, ClientPlanView { rate_per_stream: other.rate_per_stream, ..plan })
        } else {
            (server_ip, ClientPlanView { packet_size: other.packet_size, ..plan })
        }
    };
    assert forall|k: int| 0 <= k < 5 implies differ_only_behind(
        client_script(server_ip, plan),
        client_script(moved(k).0, moved(k).1),
        #[trigger] opening_of(k),
        setting(server_ip, plan, k),
        setting(moved(k).0, moved(k).1, k),
    ) by {
        the_script_is_taken_apart(server_ip, plan, k);
        the_script_is_taken_apart(moved(k).0, moved(k).1, k);
        the_script_names_its_settings(server_ip, plan, k);
        one_place_differs(
            before_setting(server_ip, plan, k),
            after_setting(plan, k),
            opening_of(k),
            setting(server_ip, plan, k),
            setting(moved(k).0, moved(k).1, k),
        );
    }
    assert(opening_of(0) == "\nSERVER = \""@);
    assert(opening_of(1) == "\nDURATION = "@);
    assert(opening_of(2) == "\nSTREAMS = "@);
    assert(opening_of(3) == "\nRATE_PER_STREAM = "@);
    assert(opening_of(4) == "\nPACKET_SIZE = "@);
}


/// The ports that a pod's container opens.
pub open spec fn opened_port(pod: JsonView) -> Option<int> {
    match only_container(pod) {
        Some(container) => match container.field("ports"@) {
            Some(JsonView::Array(ports)) => if ports.len() == 1 {
                match ports[0].field("containerPort"@) {
                    Some(JsonView::Number(port)) => Some(port),
                    _ => None,
                }
            } else {
                None
            },
            _ => None,
        },
        None => None,
    }
}

/// The client calls where the server listens: the port that a server's pod
/// opens is the one that its script listens on and the one that every client's
/// script connects to.
pub proof fn the_client_calls_the_servers_port(
    index: nat,
    server_ip: Seq<char>,
    plan: ClientPlanView,
)
    ensures
        match opened_port(server_pod(index)) {
            Some(port) => {
                &&& port >= 0
                &&& has_text(
                    server_script(),
                    "asyncio.start_server(handle_client, '0.0.0.0', "@ + decimal(port as nat)
                        + ")"@,
                )
                &&& has_text(
                    client_script(server_ip, plan),
                    "\nPORT = "@ + decimal(port as nat) + "\n"@,
                )
            },
            None => false,
        },
{
    field_names_differ();
    reveal_with_fuel(decimal, 5);
    assert(decimal(9999) =~= seq!['9', '9', '9', '9']);
    the_server_listens();
    let script = client_script(server_ip, plan);
    the_script_is_taken_apart(server_ip, plan, 0);
    let line = "\nPORT = "@ + decimal(9999) + "\n"@;
    reveal_strlit("\nPORT = ");
    reveal_strlit("\n");
    reveal_strlit("\"\nPORT = 9999\nDURATION = ");
    let before = script_head() + server_ip;
    let after = after_setting(plan, 0);
    assert(after.subrange(1, 1int + line.len()) =~= line);
    let at: int = before.len() as int + 1;
    assert(script == before + after);
    assert(script.subrange(at, at + line.len()) =~= line);
    assert(occurs_at(script, line, at));
}

proof fn the_server_listens()
    ensures
        has_text(
            server_script(),
            "asyncio.start_server(handle_client, '0.0.0.0', "@ + decimal(9999) + ")"@,
        ),
{
    reveal_with_fuel(decimal, 5);
    assert(decimal(9999) =~= seq!['9', '9', '9', '9']);
    reveal_strlit(
        "\nimport asyncio\n\nasync def handle_client(reader, writer):\n    try:\n        while True:\n            data = await reader.readline()\n            if not data:\n                break\n            writer.write(data)\n            await writer.drain()\n    except:\n        pass\n    finally:\n        writer.close()\n\nasync def main():\n    server = await asyncio.start_server(handle_client, '0.0.0.0', 9999)\n    print(f'TCP Echo Server listening on port 9999', flush=True)\n    async with server:\n        await server.serve_forever()\n\nasyncio.run(main())\n",
    );
    reveal_strlit("asyncio.start_server(handle_client, '0.0.0.0', ");
    reveal_strlit(")");
    let listens = "asyncio.start_server(handle_client, '0.0.0.0', "@ + decimal(9999) + ")"@;
    assert(server_script().subrange(340, 392) =~= listens);
    assert(occurs_at(server_script(), listens, 340));
}

/// The measurement of bandwidth is told its settings: the server is one, and the
/// client calls the server's address, for so many seconds, at so many megabits,
/// each behind its own flag.
pub proof fn the_benchmark_is_told_its_settings(
    bandwidth: nat,
    duration: nat,
    server_ip: Option<Seq<char>>,
    index: nat,
)
    ensures
        ({
            let pod = benchmark_pod(bandwidth, duration, server_ip, index);
            match only_container(pod) {
                Some(container) => match container.field("args"@) {
                    Some(JsonView::Array(args)) => match server_ip {
                        None => {
                            &&& name_of_pod(pod) == name_of_pod(server_pod(index))
                            &&& exists|i: int|
                                0 <= i < args.len() && #[trigger] args[i] == JsonView::Text("-s"@)
                        },
                        Some(ip) => {
                            &&& name_of_pod(pod) == Some("net-fairness-cli-"@ + decimal(index))
                            &&& follows(args, "-c"@, ip)
                            &&& follows(args, "-t"@, decimal(duration))
                            &&& follows(args, "--bandwidth"@, decimal(bandwidth) + "M"@)
                        },
                    },
                    _ => false,
                },
                None => false,
            }
        }),
{
    field_names_differ();
    let pod = benchmark_pod(bandwidth, duration, server_ip, index);
    let args = only_container(pod)->Some_0.field("args"@)->Some_0->Array_0;
    match server_ip {
        None => {
            assert(args[1] == JsonView::Text("-s"@));
        },
        Some(ip) => {
            assert(args[1] == JsonView::Text("-c"@) && args[2] == JsonView::Text(ip));
            assert(args[3] == JsonView::Text("-t"@));
            assert(args[4] == JsonView::Text(decimal(duration)));
            assert(args[5] == JsonView::Text("--bandwidth"@));
            assert(args[6] == JsonView::Text(decimal(bandwidth) + "M"@));
        },
    }
}

/// Among the arguments, `value` stands right behind `flag`.
pub open spec fn follows(args: Seq<JsonView>, flag: Seq<char>, value: Seq<char>) -> bool {
    exists|i: int|
        0 <= i < args.len() - 1 && #[trigger] args[i] == JsonView::Text(flag) && args[i + 1]
            == JsonView::Text(value)
}

/// The client of each pair is created once for each server, in their order,
/// calling that server's address with the plan that it was given; then each is
/// waited for.
pub proof fn each_client_calls_its_server(
    side: Side,
    servers: Seq<Seq<char>>,
    plan: ClientPlanView,
    log: Seq<ClusterReplyView>,
    i: nat,
)
    requires
        i <= log.len(),
    ensures
        match clients_step(side, servers, plan, log, i) {
            ProgressView::Ask(ClusterRequestView::CreateManifest { side: of, manifest }) => {
                &&& of == side
                &&& log.len() < servers.len()
                &&& name_of_pod(manifest) == Some("net-fairness-cli-"@ + decimal(log.len()))
                &&& python_of(manifest) == Some(client_script(servers[log.len() as int], plan))
            },
            ProgressView::Ask(ClusterRequestView::AwaitReady { side: of, name }) => {
                &&& of == side
                &&& servers.len() <= log.len() < 2 * servers.len()
                &&& name == "net-fairness-cli-"@ + decimal((log.len() - servers.len()) as nat)
            },
            ProgressView::Ask(_) => false,
            ProgressView::Got(_, _) => log.len() >= 2 * servers.len(),
            ProgressView::Stuck(error, at) => {
                &&& i < at <= log.len()
                &&& log[at - 1] is Failed
                &&& error == log[at - 1].error()
            },
        },
    decreases 2 * servers.len() - i,
{
    if i < 2 * servers.len() {
        if log.len() <= i {
            if i < servers.len() {
                the_pods_run_their_scripts(i, servers[i as int], plan);
            }
        } else if !log[i as int].failed() {
            each_client_calls_its_server(side, servers, plan, log, i + 1);
        }
    }
}


/// Waiting for an address ends with the reply that gives it, and later replies
/// do not change that.
proof fn the_address_was_read(
    side: Side,
    name: Seq<char>,
    log: Seq<ClusterReplyView>,
    attempt: nat,
    at: int,
)
    requires
        0 <= at <= log.len(),
    ensures
        match await_server_ip(side, name, log, attempt, at) {
            ProgressView::Got(ip, end) => {
                &&& at <= end <= log.len()
                &&& ip.len() > 0 ==> {
                    &&& end > at
                    &&& log[end - 1].pod_address() == ip
                    &&& await_server_ip(side, name, log.take(end - 1), attempt, at)
                        == ProgressView::<Seq<char>>::Ask(
                        ClusterRequestView::GetPod { side, name },
                    )
                }
                &&& ip.len() == 0 && attempt <= 10 ==> end == at + 2 * (10 - attempt)
                &&& forall|n: int|
                    end <= n <= log.len() ==> await_server_ip(
                        side,
                        name,
                        #[trigger] log.take(n),
                        attempt,
                        at,
                    ) == await_server_ip(side, name, log, attempt, at)
            },
            _ => true,
        },
    decreases SERVER_IP_ATTEMPTS - attempt,
{
    if attempt < SERVER_IP_ATTEMPTS && log.len() > at {
        assert forall|n: int| at < n <= log.len() implies #[trigger] log.take(n)[at] == log[at] by {}
        if log[at].pod_address().len() == 0 && log.len() > at + 1 {
            the_address_was_read(side, name, log, attempt + 1, at + 2);
        }
    }
}

/// In setting the servers up from number `i` on, the address of server number
/// `k` was asked for, and `address` came back.
spec fn address_was_given(
    side: Side,
    pairs: nat,
    log: Seq<ClusterReplyView>,
    i: nat,
    at: int,
    found: Seq<Seq<char>>,
    k: int,
    address: Seq<char>,
) -> bool {
    exists|j: int|
        at <= j < log.len() && servers_ready(side, pairs, #[trigger] log.take(j), i, at, found)
            == ProgressView::<Seq<Seq<char>>>::Ask(
            ClusterRequestView::GetPod { side, name: server_name(k as nat) },
        ) && log[j].pod_address() == address
}

proof fn the_rest_was_read(
    side: Side,
    pairs: nat,
    log: Seq<ClusterReplyView>,
    i: nat,
    at: int,
    found: Seq<Seq<char>>,
)
    requires
        0 <= at <= log.len(),
        found.len() == i,
        i <= pairs,
    ensures
        match servers_ready(side, pairs, log, i, at, found) {
            ProgressView::Got(all, _) => {
                &&& all.len() == pairs
                &&& forall|k: int| 0 <= k < i ==> #[trigger] all[k] == found[k]
                &&& forall|k: int|
                    i <= k < pairs ==> address_was_given(
                        side,
                        pairs,
                        log,
                        i,
                        at,
                        found,
                        k,
                        #[trigger] all[k],
                    )
            },
            _ => true,
        },
    decreases pairs - i,
{
    if i < pairs && log.len() > at && !log[at].failed() {
        let name = server_name(i);
        the_address_was_read(side, name, log, 0, at + 1);
        if let ProgressView::Got(ip, next) = await_server_ip(side, name, log, 0, at + 1) {
            if ip.len() > 0 {
                let more = found.push(ip);
                the_rest_was_read(side, pairs, log, i + 1, next, more);
                if let ProgressView::Got(all, _) = servers_ready(
                    side,
                    pairs,
                    log,
                    i,
                    at,
                    found,
                ) {
                    assert(all[i as int] == more[i as int]);
                    assert(log.take(next - 1)[at] == log[at]);
                    assert(servers_ready(side, pairs, log.take(next - 1), i, at, found)
                        == ProgressView::<Seq<Seq<char>>>::Ask(
                        ClusterRequestView::GetPod { side, name },
                    ));
                    assert(address_was_given(side, pairs, log, i, at, found, i as int, ip));
                    assert forall|k: int| 0 <= k < i implies #[trigger] all[k] == found[k] by {
                        assert(more[k] == found[k]);
                    }
                    assert forall|k: int| i <= k < pairs implies address_was_given(
                        side,
                        pairs,
                        log,
                        i,
                        at,
                        found,
                        k,
                        #[trigger] all[k],
                    ) by {
                        if k > i {
                            assert(address_was_given(
                                side,
                                pairs,
                                log,
                                i + 1,
                                next,
                                more,
                                k,
                                all[k],
                            ));
                            let j = choose|j: int|
                                next <= j < log.len() && servers_ready(
                                    side,
                                    pairs,
                                    #[trigger] log.take(j),
                                    i + 1,
                                    next,
                                    more,
                                ) == ProgressView::<Seq<Seq<char>>>::Ask(
                                    ClusterRequestView::GetPod {
                                        side,
                                        name: server_name(k as nat),
                                    },
                                ) && log[j].pod_address() == all[k];
                            assert(log.take(j)[at] == log[at]);
                            assert(servers_ready(side, pairs, log.take(j), i, at, found)
                                == servers_ready(side, pairs, log.take(j), i + 1, next, more));
                        }
                    }
                }
            }
        }
    }
}

/// Creating the servers takes one reply for each, and later replies change
/// nothing of it.
proof fn the_servers_stay_created(
    side: Side,
    pairs: nat,
    log: Seq<ClusterReplyView>,
    i: nat,
    at: int,
)
    requires
        0 <= at <= log.len(),
        i <= pairs,
    ensures
        match servers_created(side, pairs, log, i, at) {
            ProgressView::Got(_, end) => {
                &&& end == at + (pairs - i)
                &&& end <= log.len()
                &&& forall|n: int|
                    end <= n <= log.len() ==> servers_created(
                        side,
                        pairs,
                        #[trigger] log.take(n),
                        i,
                        at,
                    ) == servers_created(side, pairs, log, i, at)
            },
            ProgressView::Ask(request) => {
                &&& request == (ClusterRequestView::CreateManifest {
                    side,
                    manifest: server_pod((i + log.len() - at) as nat),
                })
                &&& i + log.len() - at < pairs
            },
            ProgressView::Stuck(error, end) => {
                &&& at < end <= log.len()
                &&& log[end - 1] is Failed
                &&& error == log[end - 1].error()
            },
        },
    decreases pairs - i,
{
    if i < pairs && log.len() > at && !log[at].failed() {
        the_servers_stay_created(side, pairs, log, i + 1, at + 1);
        assert forall|n: int| at < n <= log.len() implies #[trigger] log.take(n)[at] == log[at] by {}
    }
}

/// The address under which a server is called is its own: where the servers are
/// set up, the address found for each of them came back when the cluster was
/// asked for the pod of that server's name. The servers are created one by one
/// under these names before.
pub proof fn each_servers_address_is_its_own(
    side: Side,
    pairs: nat,
    log: Seq<ClusterReplyView>,
    k: int,
)
    requires
        0 <= k < pairs,
    ensures
        match servers_step(side, pairs, log) {
            ProgressView::Got(all, _) => exists|j: int|
                0 <= j < log.len() && servers_step(side, pairs, #[trigger] log.take(j))
                    == ProgressView::<Seq<Seq<char>>>::Ask(
                    ClusterRequestView::GetPod {
                        side,
                        name: "net-fairness-srv-"@ + decimal(k as nat),
                    },
                ) && log[j].pod_address() == all[k],
            ProgressView::Ask(ClusterRequestView::CreateManifest { side: of, manifest }) => {
                &&& of == side
                &&& log.len() < pairs
                &&& name_of_pod(manifest) == Some("net-fairness-srv-"@ + decimal(log.len()))
                &&& python_of(manifest) == Some(server_script())
            },
            _ => true,
        },
{
    the_servers_stay_created(side, pairs, log, 0, 0);
    match servers_created(side, pairs, log, 0, 0) {
        ProgressView::Got(_, at) => {
            the_rest_was_read(side, pairs, log, 0, at, seq![]);
            if let ProgressView::Got(all, _) = servers_step(side, pairs, log) {
                assert(address_was_given(side, pairs, log, 0, at, seq![], k, all[k]));
                let j = choose|j: int|
                    at <= j < log.len() && servers_ready(
                        side,
                        pairs,
                        #[trigger] log.take(j),
                        0,
                        at,
                        seq![],
                    ) == ProgressView::<Seq<Seq<char>>>::Ask(
                        ClusterRequestView::GetPod { side, name: server_name(k as nat) },
                    ) && log[j].pod_address() == all[k];
                assert(servers_step(side, pairs, log.take(j)) == servers_ready(
                    side,
                    pairs,
                    log.take(j),
                    0,
                    at,
                    seq![],
                ));
            }
            if let ProgressView::Ask(request) = servers_step(side, pairs, log) {
                readying_creates_nothing(side, pairs, log, 0, at, seq![]);
            }
        },
        ProgressView::Ask(_) => {
            field_names_differ();
        },
        _ => {},
    }
}

proof fn readying_creates_nothing(
    side: Side,
    pairs: nat,
    log: Seq<ClusterReplyView>,
    i: nat,
    at: int,
    found: Seq<Seq<char>>,
)
    ensures
        match servers_ready(side, pairs, log, i, at, found) {
            ProgressView::Ask(request) => !(request is CreateManifest),
            _ => true,
        },
    decreases pairs - i,
{
    if i < pairs && log.len() > at && !log[at].failed() {
        waiting_creates_nothing(side, server_name(i), log, 0, at + 1);
        if let ProgressView::Got(ip, next) = await_server_ip(
            side,
            server_name(i),
            log,
            0,
            at + 1,
        ) {
            readying_creates_nothing(side, pairs, log, i + 1, next, found.push(ip));
        }
    }
}

proof fn waiting_creates_nothing(
    side: Side,
    name: Seq<char>,
    log: Seq<ClusterReplyView>,
    attempt: nat,
    at: int,
)
    ensures
        match await_server_ip(side, name, log, attempt, at) {
            ProgressView::Ask(request) => {
                ||| request == (ClusterRequestView::Pause { millis: 500 })
                ||| request == (ClusterRequestView::GetPod { side, name })
            },
            _ => true,
        },
    decreases SERVER_IP_ATTEMPTS - attempt,
{
    if attempt < SERVER_IP_ATTEMPTS && log.len() > at + 1 {
        waiting_creates_nothing(side, name, log, attempt + 1, at + 2);
    }
}

proof fn the_benchmark_address_was_read(
    side: Side,
    name: Seq<char>,
    log: Seq<ClusterReplyView>,
    attempt: nat,
    at: int,
)
    requires
        0 <= at <= log.len(),
    ensures
        match await_benchmark_ip(side, name, log, attempt, at) {
            ProgressView::Got(ip, end) => {
                &&& at < end <= log.len()
                &&& ip.len() > 0
                &&& log[end - 1].pod_address() == ip
                &&& await_benchmark_ip(side, name, log.take(end - 1), attempt, at)
                    == ProgressView::<Seq<char>>::Ask(ClusterRequestView::GetPod { side, name })
            },
            ProgressView::Ask(request) => {
                ||| request == (ClusterRequestView::Pause { millis: 500 })
                ||| request == (ClusterRequestView::GetPod { side, name })
            },
            ProgressView::Stuck(_, end) => attempt < 9 ==> end == at + 2 * (9 - attempt) - 1,
        },
    decreases BENCHMARK_IP_ATTEMPTS - attempt,
{
    if log.len() > at {
        assert forall|n: int| at < n <= log.len() implies #[trigger] log.take(n)[at] == log[at] by {}
        if log[at].pod_address().len() == 0 && attempt + 1 < BENCHMARK_IP_ATTEMPTS && log.len() > at
            + 1 {
            the_benchmark_address_was_read(side, name, log, attempt + 1, at + 2);
        }
    }
}

/// A bandwidth client calls its own server: the client is created only once the
/// cluster was asked for the pod of the server's name and gave its address, and
/// it is created to call that address, with the settings of the pair.
pub proof fn a_benchmark_client_calls_its_server(
    side: Side,
    bandwidth: nat,
    duration: nat,
    index: nat,
    log: Seq<ClusterReplyView>,
)
    ensures
        match benchmark_pair_step(side, bandwidth, duration, index, log) {
            ProgressView::Ask(ClusterRequestView::CreateManifest { side: of, manifest }) => {
                &&& of == side
                &&& if log.len() == 0 {
                    manifest == benchmark_pod(bandwidth, duration, None, index)
                } else {
                    exists|j: int|
                        0 <= j < log.len() && benchmark_pair_step(
                            side,
                            bandwidth,
                            duration,
                            index,
                            #[trigger] log.take(j),
                        ) == ProgressView::<()>::Ask(
                            ClusterRequestView::GetPod {
                                side,
                                name: "net-fairness-srv-"@ + decimal(index),
                            },
                        ) && log[j].pod_address().len() > 0 && manifest == benchmark_pod(
                            bandwidth,
                            duration,
                            Some(log[j].pod_address()),
                            index,
                        )
                }
            },
            _ => true,
        },
{
    let name = server_name(index);
    if log.len() >= 2 && !log[0].failed() && !log[1].failed() {
        the_benchmark_address_was_read(side, name, log, 0, 2);
        if let ProgressView::Got(ip, end) = await_benchmark_ip(side, name, log, 0, 2) {
            assert(log.take(end - 1)[0] == log[0]);
            assert(log.take(end - 1)[1] == log[1]);
            assert(benchmark_pair_step(side, bandwidth, duration, index, log.take(end - 1))
                == ProgressView::<()>::Ask(ClusterRequestView::GetPod { side, name }));
        }
    }
}


/// The text has none of the character.
pub open spec fn free_of(text: Seq<char>, c: char) -> bool {
    forall|i: int| 0 <= i < text.len() ==> #[trigger] text[i] != c
}

/// What a client writes of a packet is read back as it was written: its time,
/// its latency, and as failed exactly where the mark at the end is a one.
pub proof fn a_sample_is_read_back(
    time: Seq<char>,
    latency: Seq<char>,
    mark: Seq<char>,
    pair: nat,
)
    requires
        free_of(time, ':'),
        free_of(latency, ':'),
        free_of(mark, ':'),
        time.len() > 0 && !is_space(time[0]),
        mark.len() > 0 && !is_space(mark.last()),
    ensures
        sample_in(time + ":"@ + latency + ":"@ + mark, pair) == Some(
            SampleView {
                timestamp: time,
                latency,
                is_error: mark == "1"@,
                label: "tcp-ping-"@ + decimal(pair),
            },
        ),
{
    reveal_strlit(":");
    assert(":"@ =~= seq![':']);
    let entry = time + ":"@ + latency + ":"@ + mark;
    assert(entry[0] == time[0] && entry.last() == mark.last());
    trimming_keeps_the_rest(entry);
    let rest = latency + seq![':'] + mark;
    assert(entry =~= time + seq![':'] + rest);
    a_character_parts_two_texts(time, ':', rest);
    a_character_parts_two_texts(latency, ':', mark);
    a_text_without_the_character_is_whole(mark, ':');
    let pieces = parts(entry, ":"@);
    assert(pieces =~= seq![time, latency, mark]);
}

/// An entry without a colon is no measurement.
pub proof fn an_entry_without_a_colon_is_no_sample(entry: Seq<char>, pair: nat)
    requires
        free_of(trimmed(entry), ':'),
    ensures
        sample_in(entry, pair) is None,
{
    reveal_strlit(":");
    assert(":"@ =~= seq![':']);
    a_text_without_the_character_is_whole(trimmed(entry), ':');
}

/// The measurements of a client are those of its entries, in their order: each
/// entry that is one gives one, and nothing else is there.
pub proof fn the_samples_are_those_of_the_entries(
    entries: Seq<Seq<char>>,
    more: Seq<Seq<char>>,
    pair: nat,
)
    ensures
        samples_in(entries + more, pair, (entries + more).len() as int) == samples_in(
            entries,
            pair,
            entries.len() as int,
        ) + samples_in(more, pair, more.len() as int),
        entries.len() == 1 ==> samples_in(entries, pair, 1) == (match sample_in(entries[0], pair) {
            Some(sample) => seq![sample],
            None => seq![],
        }),
    decreases more.len(),
{
    let all = entries + more;
    let n = entries.len() as int;
    if more.len() == 0 {
        assert(all =~= entries);
        assert(samples_in(entries, pair, n) + Seq::<SampleView>::empty() =~= samples_in(
            entries,
            pair,
            n,
        ));
    } else {
        let less = more.drop_last();
        let m = more.len() as int;
        the_samples_are_those_of_the_entries(entries, less, pair);
        first_samples_are_the_same(all, entries + less, pair, n + m - 1);
        first_samples_are_the_same(more, less, pair, m - 1);
        assert(all[n + m - 1] == more[m - 1]);
        let (a, b) = (samples_in(entries, pair, n), samples_in(less, pair, m - 1));
        match sample_in(more[m - 1], pair) {
            Some(sample) => {
                assert((a + b).push(sample) =~= a + b.push(sample));
            },
            None => {},
        }
    }
    if entries.len() == 1 {
        assert(samples_in(entries, pair, 0) =~= seq![]);
        match sample_in(entries[0], pair) {
            Some(sample) => {
                assert(samples_in(entries, pair, 1) =~= seq![sample]);
            },
            None => {},
        }
    }
}

proof fn first_samples_are_the_same(
    list: Seq<Seq<char>>,
    other: Seq<Seq<char>>,
    pair: nat,
    n: int,
)
    requires
        n <= list.len(),
        n <= other.len(),
        forall|i: int| 0 <= i < n ==> #[trigger] list[i] == other[i],
    ensures
        samples_in(list, pair, n) == samples_in(other, pair, n),
    decreases n,
{
    if n > 0 {
        first_samples_are_the_same(list, other, pair, n - 1);
        assert(list[n - 1] == other[n - 1]);
    }
}

/// A figure is the word before a unit, and it counts a thousandfold exactly
/// where the unit does; every word before a unit is a figure.
pub proof fn a_figure_stands_before_its_unit(list: Seq<Seq<char>>, n: int)
    requires
        n <= list.len(),
    ensures
        forall|k: int|
            0 <= k < figures_in(list, n).len() ==> is_a_figure(
                list,
                n,
                #[trigger] figures_in(list, n)[k],
            ),
        forall|i: int, figure: FigureView|
            0 < i < n && #[trigger] is_figure_at(list, i, figure) ==> figures_in(list, n).contains(
                figure,
            ),
    decreases n,
{
    reveal_strlit("Mbits/sec");
    reveal_strlit("Gbits/sec");
    assert("Mbits/sec"@[0] == 'M' && "Gbits/sec"@[0] == 'G');
    if n > 1 {
        let before = figures_in(list, n - 1);
        let after = figures_in(list, n);
        a_figure_stands_before_its_unit(list, n - 1);
        assert forall|k: int| 0 <= k < after.len() implies is_a_figure(
            list,
            n,
            #[trigger] after[k],
        ) by {
            if k < before.len() {
                assert(after[k] == before[k]);
                assert(is_a_figure(list, n - 1, before[k]));
                let i = choose|i: int| 0 < i < n - 1 && is_figure_at(list, i, before[k]);
                assert(is_figure_at(list, i, after[k]));
            } else {
                assert(is_figure_at(list, n - 1, after[k]));
            }
        }
        assert forall|i: int, figure: FigureView|
            0 < i < n && #[trigger] is_figure_at(list, i, figure) implies after.contains(figure) by {
            if i < n - 1 {
                assert(before.contains(figure));
                let k = choose|k: int| 0 <= k < before.len() && before[k] == figure;
                assert(after[k] == figure);
            } else {
                assert(after[before.len() as int] == figure);
            }
        }
    }
}

/// Word number `i` is a unit, and `figure` is the word before it in that unit.
pub open spec fn is_figure_at(list: Seq<Seq<char>>, i: int, figure: FigureView) -> bool {
    &&& figure.text == list[i - 1]
    &&& (list[i] == "Mbits/sec"@ && !figure.gigabits) || (list[i] == "Gbits/sec"@
        && figure.gigabits)
}

/// `figure` is a word before a unit among the first `n` words.
pub open spec fn is_a_figure(list: Seq<Seq<char>>, n: int, figure: FigureView) -> bool {
    exists|i: int| 0 < i < n && is_figure_at(list, i, figure)
}

/// The last lines come first: the figures of the last line of an output precede
/// those of the lines before it.
pub proof fn the_last_line_comes_first(list: Seq<Seq<char>>, last: Seq<char>)
    ensures
        figures_from_end(list.push(last), list.len() as int + 1) == line_figures(last)
            + figures_from_end(list, list.len() as int),
{
    figures_behind_the_last(list, last, list.len() as int);
}

proof fn figures_behind_the_last(list: Seq<Seq<char>>, last: Seq<char>, n: int)
    requires
        0 <= n <= list.len(),
    ensures
        figures_from_end(list.push(last), n + 1) == line_figures(last) + figures_from_end(list, n),
    decreases n,
{
    let all = list.push(last);
    if n == 0 {
        assert(figures_from_end(all, 0) =~= seq![]);
        assert(all[all.len() - 1] == last);
        assert(seq![] + line_figures(last) =~= line_figures(last) + figures_from_end(list, 0));
    } else {
        figures_behind_the_last(list, last, n - 1);
        assert(all[all.len() - (n + 1)] == list[list.len() - n]);
        let (a, b) = (line_figures(last), figures_from_end(list, n - 1));
        let c = line_figures(list[list.len() - n]);
        assert(a + b + c =~= a + (b + c));
    }
}


/// No two pods of a measurement share a name: neither two servers, nor two
/// clients, nor a server and a client.
pub proof fn the_pods_are_told_apart(index: nat, other: nat)
    ensures
        server_name(index) == server_name(other) ==> index == other,
        client_name(index) == client_name(other) ==> index == other,
        server_name(index) != client_name(other),
{
    reveal_strlit("net-fairness-srv-");
    reveal_strlit("net-fairness-cli-");
    decimal_reads_back(index);
    decimal_reads_back(other);
    let (a, b) = (server_name(index), server_name(other));
    let (c, d) = (client_name(index), client_name(other));
    assert(a.subrange(17, a.len() as int) =~= decimal(index));
    assert(b.subrange(17, b.len() as int) =~= decimal(other));
    assert(c.subrange(17, c.len() as int) =~= decimal(index));
    assert(d.subrange(17, d.len() as int) =~= decimal(other));
    assert(a[13] == 's' && d[13] == 'c');
}

/// The clients are waited for one after another: each is looked at under its own
/// name, one that has not ended is waited for, and the wait is over only once
/// every client has ended or was waited for.
pub proof fn every_client_is_waited_for(
    side: Side,
    pairs: nat,
    log: Seq<ClusterReplyView>,
    i: nat,
    at: int,
)
    requires
        0 <= at <= log.len(),
        i <= pairs,
    ensures
        match completion_step(side, pairs, log, i, at) {
            ProgressView::Ask(request) => exists|k: nat|
                i <= k < pairs && (request == (ClusterRequestView::GetPod {
                    side,
                    name: #[trigger] client_name(k),
                }) || request == (ClusterRequestView::AwaitCompletion {
                    side,
                    name: client_name(k),
                })),
            ProgressView::Got(_, end) => at + (pairs - i) <= end <= at + 2 * (pairs - i),
            ProgressView::Stuck(error, end) => {
                &&& at < end <= log.len()
                &&& log[end - 1] is Failed
                &&& error == log[end - 1].error()
            },
        },
        i < pairs && log.len() == at + 1 ==> {
            let over = match log[at] {
                ClusterReplyView::Landed(pod) => match pod.status {
                    Some(status) => status.phase == Some("Succeeded"@) || status.phase == Some(
                        "Failed"@,
                    ),
                    None => false,
                },
                _ => false,
            };
            completion_step(side, pairs, log, i, at) == ProgressView::<()>::Ask(
                ClusterRequestView::AwaitCompletion { side, name: client_name(i) },
            ) <==> !over
        },
    decreases pairs - i,
{
    if i < pairs {
        if log.len() > at {
            if has_completed(log[at]) {
                every_client_is_waited_for(side, pairs, log, i + 1, at + 1);
                if log.len() == at + 1 {
                    if i + 1 < pairs {
                        assert(completion_step(side, pairs, log, i + 1, at + 1)
                            == ProgressView::<()>::Ask(
                            ClusterRequestView::GetPod { side, name: client_name(i + 1) },
                        ));
                    }
                }
            } else if log.len() > at + 1 && !log[at + 1].failed() {
                every_client_is_waited_for(side, pairs, log, i + 1, at + 2);
            }
        }
        assert(client_name(i) == client_name(i));
    }
}

/// What the settings of a measurement say in its records: each under its own
/// name.
pub proof fn the_settings_are_recorded(config: FairnessNetworkConfig)
    ensures
        network_settings(config).field("pod_pairs"@) == Some(
            JsonView::Number(config.pod_pairs as int),
        ),
        network_settings(config).field("streams"@) == Some(
            JsonView::Number(config.streams as int),
        ),
        network_settings(config).field("packet_size_bytes"@) == Some(
            JsonView::Number(config.packet_size as int),
        ),
{
    reveal_strlit("pod_pairs");
    reveal_strlit("streams");
    reveal_strlit("packet_size_bytes");
    assert("pod_pairs"@.len() == 9 && "streams"@.len() == 7 && "packet_size_bytes"@.len() == 17);
}

}
