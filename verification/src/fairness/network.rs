//! The network under load: pairs of pods that send packets to each other, and
//! what they measured.

use crate::cluster::{
    reply_views, ClusterReply, ClusterReplyView, ClusterRequest, ClusterRequestView, Progress,
    ProgressView, Side,
};
use crate::control_plane::experiment::text_view;
use crate::json::{empty_array, empty_object, Json, JsonView};
use crate::pods::LandedView;
use crate::text::{
    chars_of, contains, decimal, decimal_of, find, find_from, has_text, joined, joined7, slice_of,
    string_from, string_of, texts,
};
use crate::words::{char_views, lines, lines_of, parts, parts_of, trim, trimmed, words, words_of};
use vstd::prelude::*;
use vstd::string::*;

verus! {

/// Network assessor configuration.
#[derive(Debug, Clone, Copy, PartialEq, Eq, Structural)]
pub struct FairnessNetworkConfig {
    /// Number of client and server pod pairs per tenant.
    pub pod_pairs: u32,
    /// Number of parallel streams per client.
    pub streams: u32,
    /// Packet payload size in bytes, without the protocols' own.
    pub packet_size: u32,
}

impl Default for FairnessNetworkConfig {
    fn default() -> (r: FairnessNetworkConfig)
        ensures
            r == (FairnessNetworkConfig { pod_pairs: 1, streams: 4, packet_size: 64 }),
    {
        FairnessNetworkConfig { pod_pairs: 1, streams: 4, packet_size: 64 }
    }
}

/// Network fairness assessor that measures the round trip of every packet.
#[derive(Debug, Clone, Copy, PartialEq, Eq, Structural)]
pub struct FairnessNetworkAssessor {
    pub config: FairnessNetworkConfig,
}

/// The settings that decide what was measured.
pub open spec fn network_settings(config: FairnessNetworkConfig) -> JsonView {
    empty_object().with("pod_pairs"@, JsonView::Number(config.pod_pairs as int)).with(
        "streams"@,
        JsonView::Number(config.streams as int),
    ).with("packet_size_bytes"@, JsonView::Number(config.packet_size as int))
}

impl FairnessNetworkAssessor {
    /// An assessor with the given configuration.
    pub fn new(config: FairnessNetworkConfig) -> (r: FairnessNetworkAssessor)
        ensures
            r.config == config,
    {
        FairnessNetworkAssessor { config }
    }

    /// Name of the subsystem.
    pub fn name(&self) -> (r: &'static str)
        ensures
            r@ == "Network"@,
    {
        "Network"
    }

    /// What is measured.
    pub fn metric(&self) -> (r: &'static str)
        ensures
            r@ == "TCP round-trip latency"@,
    {
        "TCP round-trip latency"
    }

    /// The settings that decide what was measured.
    pub fn configuration(&self) -> (r: Json)
        ensures
            r@ == network_settings(self.config),
    {
        Json::object()
            .with("pod_pairs", Json::Number(self.config.pod_pairs as i128))
            .with("streams", Json::Number(self.config.streams as i128))
            .with("packet_size_bytes", Json::Number(self.config.packet_size as i128))
    }

    /// How many bytes one operation moves: an echo carries its payload twice.
    pub fn bytes_per_operation(&self) -> (r: u64)
        ensures
            r == 2 * self.config.packet_size,
    {
        self.config.packet_size as u64 * 2
    }
}

// ---- Pods ------------------------------------------------------------------

/// The name of the server of pair number `index`.
pub open spec fn server_name(index: nat) -> Seq<char> {
    "net-fairness-srv-"@ + decimal(index)
}

/// The name of the client of pair number `index`.
pub open spec fn client_name(index: nat) -> Seq<char> {
    "net-fairness-cli-"@ + decimal(index)
}

/// The name of the server of pair number `index`.
pub fn name_of_server(index: u32) -> (r: String)
    ensures
        r@ == server_name(index as nat),
{
    joined("net-fairness-srv-", &decimal_of(index as u64))
}

/// The name of the client of pair number `index`.
pub fn name_of_client(index: u32) -> (r: String)
    ensures
        r@ == client_name(index as nat),
{
    joined("net-fairness-cli-", &decimal_of(index as u64))
}

/// The echo server.
pub open spec fn server_script() -> Seq<char> {
    "\nimport asyncio\n\nasync def handle_client(reader, writer):\n    try:\n        while True:\n            data = await reader.readline()\n            if not data:\n                break\n            writer.write(data)\n            await writer.drain()\n    except:\n        pass\n    finally:\n        writer.close()\n\nasync def main():\n    server = await asyncio.start_server(handle_client, '0.0.0.0', 9999)\n    print(f'TCP Echo Server listening on port 9999', flush=True)\n    async with server:\n        await server.serve_forever()\n\nasyncio.run(main())\n"@
}

/// An amount of memory and of CPU.
pub open spec fn pod_amounts_view(memory: Seq<char>, cpu: Seq<char>) -> JsonView {
    empty_object().with("memory"@, JsonView::Text(memory)).with("cpu"@, JsonView::Text(cpu))
}

/// A pod that runs one Python script once.
pub open spec fn script_pod(name: Seq<char>, container: JsonView) -> JsonView {
    empty_object().with("apiVersion"@, JsonView::Text("v1"@)).with(
        "kind"@,
        JsonView::Text("Pod"@),
    ).with("metadata"@, empty_object().with("name"@, JsonView::Text(name))).with(
        "spec"@,
        empty_object().with("restartPolicy"@, JsonView::Text("Never"@)).with(
            "containers"@,
            empty_array().item(container),
        ),
    )
}

/// A container that runs a Python script.
pub open spec fn script_container(name: Seq<char>, script: Seq<char>) -> JsonView {
    empty_object().with("name"@, JsonView::Text(name)).with(
        "image"@,
        JsonView::Text("python:3.11-alpine"@),
    ).with(
        "command"@,
        empty_array().item(JsonView::Text("python3"@)).item(JsonView::Text("-c"@)).item(
            JsonView::Text(script),
        ),
    )
}

/// The pod of an echo server.
pub open spec fn server_pod(index: nat) -> JsonView {
    script_pod(
        server_name(index),
        script_container("tcp-server"@, server_script()).with(
            "ports"@,
            empty_array().item(empty_object().with("containerPort"@, JsonView::Number(9999))),
        ).with(
            "resources"@,
            empty_object().with("requests"@, pod_amounts_view("128Mi"@, "200m"@)).with(
                "limits"@,
                pod_amounts_view("256Mi"@, "1000m"@),
            ),
        ),
    )
}

/// What a client is told: how long to send, how fast, over how many streams and
/// with how large a payload. The rates are written out by the caller.
#[derive(Debug)]
pub struct ClientPlan {
    pub duration: u64,
    /// Packets per second and stream, or `None`.
    pub rate_per_stream: String,
    /// The rate of all streams together, in words.
    pub total_rate: String,
    pub streams: u32,
    pub packet_size: u32,
}

/// What a client is told.
pub struct ClientPlanView {
    pub duration: nat,
    pub rate_per_stream: Seq<char>,
    pub total_rate: Seq<char>,
    pub streams: nat,
    pub packet_size: nat,
}

impl View for ClientPlan {
    type V = ClientPlanView;

    open spec fn view(&self) -> ClientPlanView {
        ClientPlanView {
            duration: self.duration as nat,
            rate_per_stream: self.rate_per_stream@,
            total_rate: self.total_rate@,
            streams: self.streams as nat,
            packet_size: self.packet_size as nat,
        }
    }
}

/// The client, which records the round trip of every packet.
pub open spec fn client_script(server_ip: Seq<char>, plan: ClientPlanView) -> Seq<char> {
    "\nimport asyncio\nimport time\nimport sys\nimport gc\nfrom array import array\nfrom collections import deque\n\n# The cyclic collector is off for the whole run.\n#\n# This client keeps a sample per packet, and CPython's generational GC scans\n# *all* tracked objects on a gen-2 pass — inside the event loop, so the loop\n# stops and every request in flight completes late together. It showed up as\n# bursts of thousands of consecutive samples over 10ms while p50 stayed at\n# 0.7ms, and those bursts decided p95. Refcounting frees everything here; the\n# collector only exists for reference cycles, which floats in an array do not\n# make.\ngc.disable()\ngc.freeze()\n\nSERVER = \""@
        + server_ip
        + "\"\nPORT = 9999\nDURATION = "@
        + decimal(plan.duration)
        + "\nSTREAMS = "@
        + decimal(plan.streams)
        + "\nRATE_PER_STREAM = "@
        + plan.rate_per_stream
        + "  # packets per second per stream, None = unlimited\nPACKET_SIZE = "@
        + decimal(plan.packet_size)
        + "   # payload size in bytes\nMAX_IN_FLIGHT = 1000          # per stream\n\n# One packet, built once. Its contents carry no meaning: replies are matched to\n# sends by order, not by anything written in them.\nPKT = b'X' * max(1, PACKET_SIZE - 1) + b'\\n'\n\nprint(\"=== TCP Ping Client Configuration ===\", flush=True)\nprint(f\"Server: {SERVER}:{PORT}\", flush=True)\nprint(f\"Duration: {DURATION} seconds\", flush=True)\nprint(f\"Streams: {STREAMS} (async connections)\", flush=True)\nprint(f\"Rate per stream: {RATE_PER_STREAM} pkt/s\", flush=True)\nprint(f\"Packet size: {PACKET_SIZE} bytes\", flush=True)\nprint(f\"Rate limit: "@
        + plan.total_rate
        + "\", flush=True)\nprint(f\"Pipelining: enabled (max {MAX_IN_FLIGHT} in-flight)\", flush=True)\nprint(\"======================================\", flush=True)\n\nasync def sender(writer, sent_at, start, end):\n    \"\"\"Pace packets to the target rate, sending whatever is due in one batch.\"\"\"\n    clock = time.perf_counter\n    write = writer.write\n    drain = writer.drain\n    seq = 0\n    while True:\n        now = clock()\n        if now >= end:\n            break\n        if len(sent_at) >= MAX_IN_FLIGHT:\n            await asyncio.sleep(0.0005)\n            continue\n        if RATE_PER_STREAM:\n            due = int((now - start) * RATE_PER_STREAM) - seq\n            if due <= 0:\n                # Ahead of schedule: wait for the next packet to fall due.\n                ahead = (seq + 1) / RATE_PER_STREAM - (now - start)\n                await asyncio.sleep(min(max(ahead, 0.0002), 0.005))\n                continue\n        else:\n            due = 256\n        for _ in range(due):\n            sent_at.append(clock())\n            write(PKT)\n            seq += 1\n        await drain()\n    return seq\n\nasync def receiver(reader, sent_at, ts, rtt, start, stop):\n    \"\"\"One reply per send, in order, so matching is a popleft.\"\"\"\n    clock = time.perf_counter\n    readline = reader.readline\n    while True:\n        # One await per packet, deliberately.\n        #\n        # Reading larger chunks and counting newlines is cheaper — but only by\n        # about 3%, and it changes what is measured: every packet in a chunk\n        # then shares the instant the application saw them, which drops the\n        # reported latency roughly tenfold because the client's own\n        # serialisation backlog stops being counted. Cheaper numbers that mean\n        # something else are not a saving.\n        line = await readline()\n        if not line:\n            break\n        now = clock()\n        if not sent_at:\n            continue\n        sent = sent_at.popleft()\n        ts.append(sent - start)\n        rtt.append((now - sent) * 1000.0)\n        if stop.is_set() and not sent_at:\n            break\n    return len(rtt)\n\nasync def run_stream(stream_id, all_results):\n    try:\n        reader, writer = await asyncio.open_connection(SERVER, PORT)\n    except Exception as e:\n        print(f\"[Stream {stream_id}] Connection failed: {e}\", file=sys.stderr, flush=True)\n        return\n\n    start = time.perf_counter()\n    end = start + DURATION\n    sent_at = deque()\n    ts = array('d')\n    rtt = array('d')\n    stop = asyncio.Event()\n    sent = 0\n    received = 0\n\n    try:\n        send_task = asyncio.create_task(sender(writer, sent_at, start, end))\n        recv_task = asyncio.create_task(receiver(reader, sent_at, ts, rtt, start, stop))\n        sent = await send_task\n        stop.set()\n        try:\n            # One timer for the whole stream rather than one per packet.\n            received = await asyncio.wait_for(recv_task, timeout=5.0)\n        except asyncio.TimeoutError:\n            recv_task.cancel()\n    except Exception as e:\n        print(f\"[Stream {stream_id}] Error: {e}\", file=sys.stderr, flush=True)\n    finally:\n        writer.close()\n        try:\n            await writer.wait_closed()\n        except Exception:\n            pass\n\n    # Formatted once, at the end, rather than per packet.\n    append = all_results.append\n    for i in range(len(rtt)):\n        append(\"%.3f:%.3f:0\" % (ts[i], rtt[i]))\n    # Anything still outstanding never came back.\n    for sent_time in sent_at:\n        append(\"%.3f:2000.0:1\" % (sent_time - start))\n    print(\n        f\"[Stream {stream_id}] Sent {sent}, received {received}, lost {len(sent_at)}\",\n        file=sys.stderr,\n        flush=True,\n    )\n\nasync def main():\n    print(f\"Launching {STREAMS} pipelined streams...\", flush=True)\n    all_results = []\n    await asyncio.gather(*[run_stream(i, all_results) for i in range(STREAMS)])\n    print(\"All streams completed.\", flush=True)\n\n    total_errors = sum(1 for r in all_results if r.endswith(\":1\"))\n    print(f\"=== Summary ===\", file=sys.stderr, flush=True)\n    print(f\"Total packets: {len(all_results)}\", file=sys.stderr, flush=True)\n    print(f\"Total errors: {total_errors}\", file=sys.stderr, flush=True)\n    print(f\"===============\", file=sys.stderr, flush=True)\n\n    print(\"RESULTS:\" + \",\".join(all_results) + \",\", flush=True)\n\nasyncio.run(main())\n"@
}

/// The pod of a client.
pub open spec fn client_pod(index: nat, server_ip: Seq<char>, plan: ClientPlanView) -> JsonView {
    script_pod(
        client_name(index),
        script_container("tcp-ping"@, client_script(server_ip, plan)).with(
            "resources"@,
            empty_object().with("requests"@, pod_amounts_view("256Mi"@, "500m"@)).with(
                "limits"@,
                pod_amounts_view("512Mi"@, "2000m"@),
            ),
        ),
    )
}

/// An amount of memory and of CPU.
fn pod_amounts(memory: &str, cpu: &str) -> (r: Json)
    ensures
        r@ == pod_amounts_view(memory@, cpu@),
{
    Json::object().with("memory", Json::text(memory)).with("cpu", Json::text(cpu))
}

/// A pod that runs one Python script once.
fn pod_with_script(name: &str, container: Json) -> (r: Json)
    ensures
        r@ == script_pod(name@, container@),
{
    Json::object()
        .with("apiVersion", Json::text("v1"))
        .with("kind", Json::text("Pod"))
        .with("metadata", Json::object().with("name", Json::text(name)))
        .with(
            "spec",
            Json::object()
                .with("restartPolicy", Json::text("Never"))
                .with("containers", Json::array().item(container)),
        )
}

/// A container that runs a Python script.
fn container_with_script(name: &str, script: &str) -> (r: Json)
    ensures
        r@ == script_container(name@, script@),
{
    Json::object()
        .with("name", Json::text(name))
        .with("image", Json::text("python:3.11-alpine"))
        .with(
            "command",
            Json::array()
                .item(Json::text("python3"))
                .item(Json::text("-c"))
                .item(Json::text(script)),
        )
}

/// Creates the pod of an echo server.
pub fn tcp_server_pod(index: u32) -> (r: Json)
    ensures
        r@ == server_pod(index as nat),
{
    let script = "\nimport asyncio\n\nasync def handle_client(reader, writer):\n    try:\n        while True:\n            data = await reader.readline()\n            if not data:\n                break\n            writer.write(data)\n            await writer.drain()\n    except:\n        pass\n    finally:\n        writer.close()\n\nasync def main():\n    server = await asyncio.start_server(handle_client, '0.0.0.0', 9999)\n    print(f'TCP Echo Server listening on port 9999', flush=True)\n    async with server:\n        await server.serve_forever()\n\nasyncio.run(main())\n";
    let container = container_with_script("tcp-server", script)
        .with(
            "ports",
            Json::array().item(Json::object().with("containerPort", Json::Number(9999))),
        )
        .with(
            "resources",
            Json::object()
                .with("requests", pod_amounts("128Mi", "200m"))
                .with("limits", pod_amounts("256Mi", "1000m")),
        );
    pod_with_script(&name_of_server(index), container)
}

/// Creates the pod of a client that sends to `server_ip`.
pub fn tcp_ping_client_pod(index: u32, server_ip: &str, plan: &ClientPlan) -> (r: Json)
    ensures
        r@ == client_pod(index as nat, server_ip@, plan@),
{
    let script = joined7(
        "\nimport asyncio\nimport time\nimport sys\nimport gc\nfrom array import array\nfrom collections import deque\n\n# The cyclic collector is off for the whole run.\n#\n# This client keeps a sample per packet, and CPython's generational GC scans\n# *all* tracked objects on a gen-2 pass — inside the event loop, so the loop\n# stops and every request in flight completes late together. It showed up as\n# bursts of thousands of consecutive samples over 10ms while p50 stayed at\n# 0.7ms, and those bursts decided p95. Refcounting frees everything here; the\n# collector only exists for reference cycles, which floats in an array do not\n# make.\ngc.disable()\ngc.freeze()\n\nSERVER = \"",
        server_ip,
        "\"\nPORT = 9999\nDURATION = ",
        &decimal_of(plan.duration),
        "\nSTREAMS = ",
        &decimal_of(plan.streams as u64),
        "\nRATE_PER_STREAM = ",
    )
        .concat(&plan.rate_per_stream)
        .concat(
        "  # packets per second per stream, None = unlimited\nPACKET_SIZE = ",
    )
        .concat(&decimal_of(plan.packet_size as u64))
        .concat(
        "   # payload size in bytes\nMAX_IN_FLIGHT = 1000          # per stream\n\n# One packet, built once. Its contents carry no meaning: replies are matched to\n# sends by order, not by anything written in them.\nPKT = b'X' * max(1, PACKET_SIZE - 1) + b'\\n'\n\nprint(\"=== TCP Ping Client Configuration ===\", flush=True)\nprint(f\"Server: {SERVER}:{PORT}\", flush=True)\nprint(f\"Duration: {DURATION} seconds\", flush=True)\nprint(f\"Streams: {STREAMS} (async connections)\", flush=True)\nprint(f\"Rate per stream: {RATE_PER_STREAM} pkt/s\", flush=True)\nprint(f\"Packet size: {PACKET_SIZE} bytes\", flush=True)\nprint(f\"Rate limit: ",
    )
        .concat(&plan.total_rate)
        .concat(
        "\", flush=True)\nprint(f\"Pipelining: enabled (max {MAX_IN_FLIGHT} in-flight)\", flush=True)\nprint(\"======================================\", flush=True)\n\nasync def sender(writer, sent_at, start, end):\n    \"\"\"Pace packets to the target rate, sending whatever is due in one batch.\"\"\"\n    clock = time.perf_counter\n    write = writer.write\n    drain = writer.drain\n    seq = 0\n    while True:\n        now = clock()\n        if now >= end:\n            break\n        if len(sent_at) >= MAX_IN_FLIGHT:\n            await asyncio.sleep(0.0005)\n            continue\n        if RATE_PER_STREAM:\n            due = int((now - start) * RATE_PER_STREAM) - seq\n            if due <= 0:\n                # Ahead of schedule: wait for the next packet to fall due.\n                ahead = (seq + 1) / RATE_PER_STREAM - (now - start)\n                await asyncio.sleep(min(max(ahead, 0.0002), 0.005))\n                continue\n        else:\n            due = 256\n        for _ in range(due):\n            sent_at.append(clock())\n            write(PKT)\n            seq += 1\n        await drain()\n    return seq\n\nasync def receiver(reader, sent_at, ts, rtt, start, stop):\n    \"\"\"One reply per send, in order, so matching is a popleft.\"\"\"\n    clock = time.perf_counter\n    readline = reader.readline\n    while True:\n        # One await per packet, deliberately.\n        #\n        # Reading larger chunks and counting newlines is cheaper — but only by\n        # about 3%, and it changes what is measured: every packet in a chunk\n        # then shares the instant the application saw them, which drops the\n        # reported latency roughly tenfold because the client's own\n        # serialisation backlog stops being counted. Cheaper numbers that mean\n        # something else are not a saving.\n        line = await readline()\n        if not line:\n            break\n        now = clock()\n        if not sent_at:\n            continue\n        sent = sent_at.popleft()\n        ts.append(sent - start)\n        rtt.append((now - sent) * 1000.0)\n        if stop.is_set() and not sent_at:\n            break\n    return len(rtt)\n\nasync def run_stream(stream_id, all_results):\n    try:\n        reader, writer = await asyncio.open_connection(SERVER, PORT)\n    except Exception as e:\n        print(f\"[Stream {stream_id}] Connection failed: {e}\", file=sys.stderr, flush=True)\n        return\n\n    start = time.perf_counter()\n    end = start + DURATION\n    sent_at = deque()\n    ts = array('d')\n    rtt = array('d')\n    stop = asyncio.Event()\n    sent = 0\n    received = 0\n\n    try:\n        send_task = asyncio.create_task(sender(writer, sent_at, start, end))\n        recv_task = asyncio.create_task(receiver(reader, sent_at, ts, rtt, start, stop))\n        sent = await send_task\n        stop.set()\n        try:\n            # One timer for the whole stream rather than one per packet.\n            received = await asyncio.wait_for(recv_task, timeout=5.0)\n        except asyncio.TimeoutError:\n            recv_task.cancel()\n    except Exception as e:\n        print(f\"[Stream {stream_id}] Error: {e}\", file=sys.stderr, flush=True)\n    finally:\n        writer.close()\n        try:\n            await writer.wait_closed()\n        except Exception:\n            pass\n\n    # Formatted once, at the end, rather than per packet.\n    append = all_results.append\n    for i in range(len(rtt)):\n        append(\"%.3f:%.3f:0\" % (ts[i], rtt[i]))\n    # Anything still outstanding never came back.\n    for sent_time in sent_at:\n        append(\"%.3f:2000.0:1\" % (sent_time - start))\n    print(\n        f\"[Stream {stream_id}] Sent {sent}, received {received}, lost {len(sent_at)}\",\n        file=sys.stderr,\n        flush=True,\n    )\n\nasync def main():\n    print(f\"Launching {STREAMS} pipelined streams...\", flush=True)\n    all_results = []\n    await asyncio.gather(*[run_stream(i, all_results) for i in range(STREAMS)])\n    print(\"All streams completed.\", flush=True)\n\n    total_errors = sum(1 for r in all_results if r.endswith(\":1\"))\n    print(f\"=== Summary ===\", file=sys.stderr, flush=True)\n    print(f\"Total packets: {len(all_results)}\", file=sys.stderr, flush=True)\n    print(f\"Total errors: {total_errors}\", file=sys.stderr, flush=True)\n    print(f\"===============\", file=sys.stderr, flush=True)\n\n    print(\"RESULTS:\" + \",\".join(all_results) + \",\", flush=True)\n\nasyncio.run(main())\n",
    );
    let container = container_with_script("tcp-ping", &script).with(
        "resources",
        Json::object()
            .with("requests", pod_amounts("256Mi", "500m"))
            .with("limits", pod_amounts("512Mi", "2000m")),
    );
    pod_with_script(&name_of_client(index), container)
}

// ---- Setting the pairs up --------------------------------------------------

/// How often a server's address is asked for.
pub const SERVER_IP_ATTEMPTS: usize = 10;

/// Creating the servers from number `i` on.
pub open spec fn servers_created(
    side: Side,
    pairs: nat,
    log: Seq<ClusterReplyView>,
    i: nat,
    at: int,
) -> ProgressView<()>
    decreases pairs - i,
{
    if i >= pairs {
        ProgressView::Got((), at)
    } else if log.len() <= at {
        ProgressView::Ask(
            ClusterRequestView::CreateManifest { side, manifest: server_pod(i) },
        )
    } else if log[at].failed() {
        ProgressView::Stuck(log[at].error(), at + 1)
    } else {
        servers_created(side, pairs, log, i + 1, at + 1)
    }
}

/// Waiting for a server's address: it is asked for twice a second, for so many
/// attempts.
pub open spec fn await_server_ip(
    side: Side,
    name: Seq<char>,
    log: Seq<ClusterReplyView>,
    attempt: nat,
    at: int,
) -> ProgressView<Seq<char>>
    decreases SERVER_IP_ATTEMPTS - attempt,
{
    if attempt >= SERVER_IP_ATTEMPTS {
        ProgressView::Got(Seq::empty(), at)
    } else if log.len() <= at {
        ProgressView::Ask(ClusterRequestView::GetPod { side, name })
    } else if log[at].pod_address().len() > 0 {
        ProgressView::Got(log[at].pod_address(), at + 1)
    } else if log.len() == at + 1 {
        ProgressView::Ask(ClusterRequestView::Pause { millis: 500 })
    } else {
        await_server_ip(side, name, log, attempt + 1, at + 2)
    }
}

/// Waiting for the servers from number `i` on to be ready, and reading their
/// addresses; `found` are those of the servers before.
pub open spec fn servers_ready(
    side: Side,
    pairs: nat,
    log: Seq<ClusterReplyView>,
    i: nat,
    at: int,
    found: Seq<Seq<char>>,
) -> ProgressView<Seq<Seq<char>>>
    decreases pairs - i,
{
    let name = server_name(i);
    if i >= pairs {
        ProgressView::Got(found, at)
    } else if log.len() <= at {
        ProgressView::Ask(ClusterRequestView::AwaitReady { side, name })
    } else if log[at].failed() {
        ProgressView::Stuck(log[at].error(), at + 1)
    } else {
        match await_server_ip(side, name, log, 0, at + 1) {
            ProgressView::Ask(request) => ProgressView::Ask(request),
            ProgressView::Stuck(error, at) => ProgressView::Stuck(error, at),
            ProgressView::Got(ip, at) => if ip.len() == 0 {
                ProgressView::Stuck("Failed to get server IP for "@ + name, at)
            } else {
                servers_ready(side, pairs, log, i + 1, at, found.push(ip))
            },
        }
    }
}

/// Creating the servers of one side: all of them first, and then their
/// addresses.
pub open spec fn servers_step(side: Side, pairs: nat, log: Seq<ClusterReplyView>) -> ProgressView<
    Seq<Seq<char>>,
> {
    match servers_created(side, pairs, log, 0, 0) {
        ProgressView::Ask(request) => ProgressView::Ask(request),
        ProgressView::Stuck(error, at) => ProgressView::Stuck(error, at),
        ProgressView::Got(_, at) => servers_ready(side, pairs, log, 0, at, seq![]),
    }
}

/// What a list of texts has come to.
pub open spec fn texts_view(progress: Progress<Vec<String>>) -> ProgressView<Seq<Seq<char>>> {
    match progress {
        Progress::Ask(request) => ProgressView::Ask(request@),
        Progress::Got(list, at) => ProgressView::Got(texts(list@), at as int),
        Progress::Stuck(error, at) => ProgressView::Stuck(error@, at as int),
    }
}

/// Waits for a server's address.
fn wait_for_server_ip(side: Side, name: &str, log: &Vec<ClusterReply>, from: usize) -> (r:
    Progress<String>)
    requires
        from <= log.len(),
    ensures
        r@ == await_server_ip(side, name@, reply_views(log@), 0, from as int),
        r matches Progress::Got(_, at) ==> at <= log.len(),
        !(r is Stuck),
{
    let ghost views = reply_views(log@);
    let mut attempt: usize = 0;
    let mut at: usize = from;
    while attempt < SERVER_IP_ATTEMPTS
        invariant
            at <= log.len(),
            attempt <= SERVER_IP_ATTEMPTS,
            views == reply_views(log@),
            await_server_ip(side, name@, views, 0, from as int) == await_server_ip(
                side,
                name@,
                views,
                attempt as nat,
                at as int,
            ),
        decreases SERVER_IP_ATTEMPTS - attempt,
    {
        if log.len() == at {
            return Progress::Ask(ClusterRequest::GetPod { side, name: string_from(name) });
        }
        let ip = log[at].pod_address();
        if ip.as_str().unicode_len() > 0 {
            return Progress::Got(ip, at + 1);
        }
        if log.len() == at + 1 {
            return Progress::Ask(ClusterRequest::Pause { millis: 500 });
        }
        attempt += 1;
        at += 2;
    }
    Progress::Got(String::new(), at)
}

/// Creates all echo servers of one side and finds their addresses: the step
/// after the replies so far.
pub fn create_tcp_servers(side: Side, pairs: u32, log: &Vec<ClusterReply>) -> (r: Progress<
    Vec<String>,
>)
    ensures
        texts_view(r) == servers_step(side, pairs as nat, reply_views(log@)),
        r matches Progress::Got(_, at) ==> at <= log.len(),
        r matches Progress::Stuck(_, at) ==> at <= log.len(),
{
    let ghost views = reply_views(log@);
    let mut i: u32 = 0;
    let mut at: usize = 0;
    while i < pairs
        invariant
            i <= pairs,
            at <= log.len(),
            views == reply_views(log@),
            servers_created(side, pairs as nat, views, 0, 0) == servers_created(
                side,
                pairs as nat,
                views,
                i as nat,
                at as int,
            ),
        decreases pairs - i,
    {
        if log.len() == at {
            return Progress::Ask(
                ClusterRequest::CreateManifest { side, manifest: tcp_server_pod(i) },
            );
        }
        if log[at].failed() {
            return Progress::Stuck(log[at].error(), at + 1);
        }
        i += 1;
        at += 1;
    }
    let ghost begun = at as int;
    let mut found: Vec<String> = Vec::new();
    assert(texts(found@) =~= seq![]);
    let mut k: u32 = 0;
    while k < pairs
        invariant
            k <= pairs,
            at <= log.len(),
            views == reply_views(log@),
            servers_step(side, pairs as nat, views) == servers_ready(
                side,
                pairs as nat,
                views,
                k as nat,
                at as int,
                texts(found@),
            ),
        decreases pairs - k,
    {
        let name = name_of_server(k);
        if log.len() == at {
            return Progress::Ask(ClusterRequest::AwaitReady { side, name });
        }
        if log[at].failed() {
            return Progress::Stuck(log[at].error(), at + 1);
        }
        match wait_for_server_ip(side, &name, log, at + 1) {
            Progress::Ask(request) => {
                return Progress::Ask(request);
            },
            Progress::Stuck(error, stuck_at) => {
                return Progress::Stuck(error, stuck_at);
            },
            Progress::Got(ip, next) => {
                if ip.as_str().unicode_len() == 0 {
                    return Progress::Stuck(joined("Failed to get server IP for ", &name), next);
                }
                let ghost before = texts(found@);
                let ghost said = ip@;
                found.push(ip);
                assert(texts(found@) =~= before.push(said));
                at = next;
            },
        }
        k += 1;
    }
    Progress::Got(found, at)
}

/// Looking for an address never fails: at worst none is found.
proof fn looking_never_fails(
    side: Side,
    name: Seq<char>,
    log: Seq<ClusterReplyView>,
    attempt: nat,
    at: int,
)
    ensures
        !(await_server_ip(side, name, log, attempt, at) is Stuck),
    decreases SERVER_IP_ATTEMPTS - attempt,
{
    if attempt < SERVER_IP_ATTEMPTS && log.len() > at + 1 {
        looking_never_fails(side, name, log, attempt + 1, at + 2);
    }
}

/// The servers that are left get their addresses.
proof fn the_rest_has_addresses(
    side: Side,
    pairs: nat,
    log: Seq<ClusterReplyView>,
    i: nat,
    at: int,
    found: Seq<Seq<char>>,
)
    requires
        i <= pairs,
        found.len() == i,
        forall|k: int| 0 <= k < found.len() ==> (#[trigger] found[k]).len() > 0,
    ensures
        servers_ready(side, pairs, log, i, at, found) matches ProgressView::Got(all, _) ==> {
            &&& all.len() == pairs
            &&& forall|k: int| 0 <= k < all.len() ==> (#[trigger] all[k]).len() > 0
        },
    decreases pairs - i,
{
    if i < pairs && log.len() > at && !log[at].failed() {
        let name = server_name(i);
        looking_never_fails(side, name, log, 0, at + 1);
        if let ProgressView::Got(ip, next) = await_server_ip(side, name, log, 0, at + 1) {
            if ip.len() > 0 {
                the_rest_has_addresses(side, pairs, log, i + 1, next, found.push(ip));
            }
        }
    }
}

/// No client is aimed at nowhere: once the servers are set up, there is one
/// address for each of them, and none is empty.
pub proof fn every_server_has_an_address(side: Side, pairs: nat, log: Seq<ClusterReplyView>)
    ensures
        servers_step(side, pairs, log) matches ProgressView::Got(all, _) ==> {
            &&& all.len() == pairs
            &&& forall|k: int| 0 <= k < all.len() ==> (#[trigger] all[k]).len() > 0
        },
{
    if let ProgressView::Got(_, at) = servers_created(side, pairs, log, 0, 0) {
        the_rest_has_addresses(side, pairs, log, 0, at, seq![]);
    }
}

/// Creating the clients of the servers from number `i` on, and then waiting for
/// them: they begin to send at once.
pub open spec fn clients_step(
    side: Side,
    servers: Seq<Seq<char>>,
    plan: ClientPlanView,
    log: Seq<ClusterReplyView>,
    i: nat,
) -> ProgressView<()>
    decreases 2 * servers.len() - i,
{
    if i >= 2 * servers.len() {
        ProgressView::Got((), i as int)
    } else if log.len() <= i {
        ProgressView::Ask(
            if i < servers.len() {
                ClusterRequestView::CreateManifest {
                    side,
                    manifest: client_pod(i, servers[i as int], plan),
                }
            } else {
                ClusterRequestView::AwaitReady {
                    side,
                    name: client_name((i - servers.len()) as nat),
                }
            },
        )
    } else if log[i as int].failed() {
        ProgressView::Stuck(log[i as int].error(), i as int + 1)
    } else {
        clients_step(side, servers, plan, log, i + 1)
    }
}

/// Creates all clients of one side and waits for them: the step after the
/// replies so far.
pub fn create_tcp_ping_clients(
    side: Side,
    servers: &Vec<String>,
    plan: &ClientPlan,
    log: &Vec<ClusterReply>,
) -> (r: Progress<()>)
    requires
        servers.len() <= u32::MAX,
    ensures
        r@ == clients_step(side, texts(servers@), plan@, reply_views(log@), 0),
{
    let ghost views = reply_views(log@);
    let ghost addresses = texts(servers@);
    let count: usize = servers.len();
    let mut i: usize = 0;
    while i < count
        invariant
            i <= count,
            count == servers.len(),
            count <= u32::MAX,
            i <= log.len(),
            views == reply_views(log@),
            addresses == texts(servers@),
            clients_step(side, addresses, plan@, views, 0) == clients_step(
                side,
                addresses,
                plan@,
                views,
                i as nat,
            ),
        decreases count - i,
    {
        if log.len() == i {
            assert(addresses[i as int] == servers[i as int]@);
            let manifest = tcp_ping_client_pod(i as u32, &servers[i], plan);
            return Progress::Ask(ClusterRequest::CreateManifest { side, manifest });
        }
        if log[i].failed() {
            return Progress::Stuck(log[i].error(), i + 1);
        }
        i += 1;
    }
    let mut k: usize = 0;
    while k < count
        invariant
            k <= count,
            count == servers.len(),
            count <= u32::MAX,
            count + k <= log.len(),
            views == reply_views(log@),
            addresses == texts(servers@),
            clients_step(side, addresses, plan@, views, 0) == clients_step(
                side,
                addresses,
                plan@,
                views,
                (count + k) as nat,
            ),
        decreases count - k,
    {
        if log.len() - count == k {
            return Progress::Ask(
                ClusterRequest::AwaitReady { side, name: name_of_client(k as u32) },
            );
        }
        if log[count + k].failed() {
            return Progress::Stuck(log[count + k].error(), count + k + 1);
        }
        k += 1;
    }
    Progress::Got((), count + count)
}

// ---- Waiting, collecting, cleaning up --------------------------------------

/// A pod that has run to its end, well or badly.
pub open spec fn has_completed(reply: ClusterReplyView) -> bool {
    match reply.landed() {
        Some(LandedView { status: Some(status), .. }) => status.phase == Some("Succeeded"@)
            || status.phase == Some("Failed"@),
        _ => false,
    }
}

/// Whether a pod has run to its end, well or badly.
pub fn is_pod_completed(reply: &ClusterReply) -> (r: bool)
    ensures
        r == has_completed(reply@),
{
    if let ClusterReply::Landed(pod) = reply {
        if let Some(status) = &pod.status {
            if let Some(phase) = &status.phase {
                return *phase == string_from("Succeeded") || *phase == string_from("Failed");
            }
        }
    }
    false
}

/// Waiting for the clients from number `i` on: each is looked at first, and
/// watched only where it still runs.
pub open spec fn completion_step(
    side: Side,
    pairs: nat,
    log: Seq<ClusterReplyView>,
    i: nat,
    at: int,
) -> ProgressView<()>
    decreases pairs - i,
{
    let name = client_name(i);
    if i >= pairs {
        ProgressView::Got((), at)
    } else if log.len() <= at {
        ProgressView::Ask(ClusterRequestView::GetPod { side, name })
    } else if has_completed(log[at]) {
        completion_step(side, pairs, log, i + 1, at + 1)
    } else if log.len() == at + 1 {
        ProgressView::Ask(ClusterRequestView::AwaitCompletion { side, name })
    } else if log[at + 1].failed() {
        ProgressView::Stuck(log[at + 1].error(), at + 2)
    } else {
        completion_step(side, pairs, log, i + 1, at + 2)
    }
}

/// Waits for the clients of one side to run to their end: the step after the
/// replies so far.
pub fn wait_for_completion(side: Side, pairs: u32, log: &Vec<ClusterReply>) -> (r: Progress<()>)
    ensures
        r@ == completion_step(side, pairs as nat, reply_views(log@), 0, 0),
{
    let ghost views = reply_views(log@);
    let mut i: u32 = 0;
    let mut at: usize = 0;
    while i < pairs
        invariant
            i <= pairs,
            at <= log.len(),
            views == reply_views(log@),
            completion_step(side, pairs as nat, views, 0, 0) == completion_step(
                side,
                pairs as nat,
                views,
                i as nat,
                at as int,
            ),
        decreases pairs - i,
    {
        let name = name_of_client(i);
        if log.len() == at {
            return Progress::Ask(ClusterRequest::GetPod { side, name });
        }
        if is_pod_completed(&log[at]) {
            at += 1;
        } else {
            if log.len() == at + 1 {
                return Progress::Ask(ClusterRequest::AwaitCompletion { side, name });
            }
            if log[at + 1].failed() {
                return Progress::Stuck(log[at + 1].error(), at + 2);
            }
            at += 2;
        }
        i += 1;
    }
    Progress::Got((), at)
}

/// A measurement as a client wrote it: the two numbers are still text.
#[derive(Debug)]
pub struct RawSample {
    pub timestamp: String,
    pub latency: String,
    pub is_error: bool,
    pub label: String,
}

/// What a measurement says.
pub struct SampleView {
    pub timestamp: Seq<char>,
    pub latency: Seq<char>,
    pub is_error: bool,
    pub label: Seq<char>,
}

impl View for RawSample {
    type V = SampleView;

    open spec fn view(&self) -> SampleView {
        SampleView {
            timestamp: self.timestamp@,
            latency: self.latency@,
            is_error: self.is_error,
            label: self.label@,
        }
    }
}

/// What a list of measurements says.
pub open spec fn sample_views(samples: Seq<RawSample>) -> Seq<SampleView> {
    Seq::new(samples.len(), |i: int| samples[i]@)
}

/// The measurement that an entry writes: its time, its latency and, where there
/// is a third part, whether it failed. An entry without two parts is none.
pub open spec fn sample_in(entry: Seq<char>, pair: nat) -> Option<SampleView> {
    let pieces = parts(trimmed(entry), ":"@);
    if pieces.len() >= 2 {
        Some(
            SampleView {
                timestamp: pieces[0],
                latency: pieces[1],
                is_error: pieces.len() > 2 && pieces[2] == "1"@,
                label: "tcp-ping-"@ + decimal(pair),
            },
        )
    } else {
        None
    }
}

/// The measurements that the first `n` entries write.
pub open spec fn samples_in(entries: Seq<Seq<char>>, pair: nat, n: int) -> Seq<SampleView>
    decreases n,
{
    if n <= 0 {
        Seq::empty()
    } else {
        match sample_in(entries[n - 1], pair) {
            Some(sample) => samples_in(entries, pair, n - 1).push(sample),
            None => samples_in(entries, pair, n - 1),
        }
    }
}

/// The measurements that a client's output holds: behind the first `RESULTS:`,
/// with commas between them.
pub open spec fn samples_of(logs: Seq<char>, pair: nat) -> Seq<SampleView> {
    match find_from(logs, "RESULTS:"@, 0) {
        Some(at) => {
            let entries = parts(logs.subrange(at + 8, logs.len() as int), ","@);
            samples_in(entries, pair, entries.len() as int)
        },
        None => Seq::empty(),
    }
}

/// The measurement that an entry writes.
fn parse_sample(entry: &Vec<char>, pair: u32) -> (r: Option<RawSample>)
    ensures
        match r {
            Some(sample) => sample_in(entry@, pair as nat) == Some(sample@),
            None => sample_in(entry@, pair as nat) is None,
        },
{
    proof {
        reveal_strlit(":");
    }
    let pieces = parts_of(&trim(entry), &chars_of(":"));
    let ghost views = char_views(pieces@);
    if pieces.len() < 2 {
        return None;
    }
    assert(views[0] == pieces[0]@);
    assert(views[1] == pieces[1]@);
    let timestamp = string_of(&pieces[0], 0, pieces[0].len());
    let latency = string_of(&pieces[1], 0, pieces[1].len());
    assert(timestamp@ =~= pieces[0]@);
    assert(latency@ =~= pieces[1]@);
    let mut is_error = false;
    if pieces.len() > 2 {
        assert(views[2] == pieces[2]@);
        let flag = string_of(&pieces[2], 0, pieces[2].len());
        assert(flag@ =~= pieces[2]@);
        is_error = flag == string_from("1");
    }
    Some(
        RawSample {
            timestamp,
            latency,
            is_error,
            label: joined("tcp-ping-", &decimal_of(pair as u64)),
        },
    )
}

/// The measurements that a client's output holds. Their numbers are still text:
/// one that is no number is dropped by the caller.
pub fn collect_results(logs: &str, pair: u32) -> (r: Vec<RawSample>)
    ensures
        sample_views(r@) == samples_of(logs@, pair as nat),
{
    let chars = chars_of(logs);
    let marker = chars_of("RESULTS:");
    let mut samples: Vec<RawSample> = Vec::new();
    assert(sample_views(samples@) =~= seq![]);
    proof {
        reveal_strlit("RESULTS:");
        reveal_strlit(",");
    }
    let start: usize = match find(&chars, &marker, 0) {
        Some(at) => {
            assert(at + marker@.len() <= chars.len());
            at + marker.len()
        },
        None => {
            return samples;
        },
    };
    let rest = slice_of(&chars, start, chars.len());
    let entries = parts_of(&rest, &chars_of(","));
    let ghost views = char_views(entries@);
    let mut i: usize = 0;
    while i < entries.len()
        invariant
            i <= entries.len(),
            views == char_views(entries@),
            sample_views(samples@) == samples_in(views, pair as nat, i as int),
        decreases entries.len() - i,
    {
        assert(views[i as int] == entries[i as int]@);
        let ghost before = sample_views(samples@);
        if let Some(sample) = parse_sample(&entries[i], pair) {
            let ghost said = sample@;
            samples.push(sample);
            assert(sample_views(samples@) =~= before.push(said));
        }
        i += 1;
    }
    samples
}

/// The requests that take the pairs away: all servers and all clients are
/// deleted before any is waited for.
pub open spec fn pair_chore(side: Side, pairs: nat, k: int) -> ClusterRequestView {
    if k < pairs {
        ClusterRequestView::DeletePod { side, name: server_name(k as nat) }
    } else if k < 2 * pairs {
        ClusterRequestView::DeletePod { side, name: client_name((k - pairs) as nat) }
    } else if (k - 2 * pairs) % 2 == 0 {
        ClusterRequestView::AwaitPodDeletion {
            side,
            name: server_name(((k - 2 * pairs) / 2) as nat),
        }
    } else {
        ClusterRequestView::AwaitPodDeletion {
            side,
            name: client_name(((k - 2 * pairs) / 2) as nat),
        }
    }
}

/// The first reply that is a failure.
pub open spec fn first_failure(log: Seq<ClusterReplyView>, from: int) -> Option<int>
    decreases log.len() - from,
{
    if from < 0 || from >= log.len() {
        None
    } else if log[from].failed() {
        Some(from)
    } else {
        first_failure(log, from + 1)
    }
}

/// Taking the pairs away: the first failure ends it.
pub open spec fn pairs_cleanup(side: Side, pairs: nat, log: Seq<ClusterReplyView>) -> ProgressView<
    (),
> {
    match first_failure(log, 0) {
        Some(at) => ProgressView::Stuck(log[at].error(), at + 1),
        None => if log.len() < 4 * pairs {
            ProgressView::Ask(pair_chore(side, pairs, log.len() as int))
        } else {
            ProgressView::Got((), log.len() as int)
        },
    }
}

/// Takes the pairs of one side away: the step after the replies so far.
pub fn cleanup_pods(side: Side, pairs: u32, log: &Vec<ClusterReply>) -> (r: Progress<()>)
    ensures
        r@ == pairs_cleanup(side, pairs as nat, reply_views(log@)),
{
    let ghost views = reply_views(log@);
    let mut i: usize = 0;
    while i < log.len()
        invariant
            i <= log.len(),
            views == reply_views(log@),
            first_failure(views, 0) == first_failure(views, i as int),
        decreases log.len() - i,
    {
        if log[i].failed() {
            return Progress::Stuck(log[i].error(), i + 1);
        }
        i += 1;
    }
    let k: u64 = log.len() as u64;
    let count: u64 = pairs as u64;
    if k >= 4 * count {
        return Progress::Got((), log.len());
    }
    let request = if k < count {
        ClusterRequest::DeletePod { side, name: name_of_server(k as u32) }
    } else if k < 2 * count {
        ClusterRequest::DeletePod { side, name: name_of_client((k - count) as u32) }
    } else {
        let rest: u64 = k - 2 * count;
        if rest % 2 == 0 {
            ClusterRequest::AwaitPodDeletion { side, name: name_of_server((rest / 2) as u32) }
        } else {
            ClusterRequest::AwaitPodDeletion { side, name: name_of_client((rest / 2) as u32) }
        }
    };
    Progress::Ask(request)
}

/// Taking the pairs away deletes the server and the client of every pair, before
/// it waits for any of them.
pub proof fn every_pod_of_a_pair_is_deleted(side: Side, pairs: nat, pair: nat)
    requires
        pair < pairs,
    ensures
        pair_chore(side, pairs, pair as int) == (ClusterRequestView::DeletePod {
            side,
            name: server_name(pair),
        }),
        pair_chore(side, pairs, (pairs + pair) as int) == (ClusterRequestView::DeletePod {
            side,
            name: client_name(pair),
        }),
        pair_chore(side, pairs, (2 * pairs + 2 * pair) as int)
            == (ClusterRequestView::AwaitPodDeletion { side, name: server_name(pair) }),
        pair_chore(side, pairs, (2 * pairs + 2 * pair + 1) as int)
            == (ClusterRequestView::AwaitPodDeletion { side, name: client_name(pair) }),
{
}

// ---- Bandwidth -------------------------------------------------------------

/// Configuration of the bandwidth measurement.
#[derive(Debug, Clone, Copy, PartialEq, Eq, Structural)]
pub struct NetworkFairnessConfig {
    /// Number of client and server pod pairs per tenant for the baseline.
    pub pod_pairs_per_tenant: u32,
    /// Bandwidth limit in Mbps.
    pub bandwidth_limit_mbps: u32,
}

impl Default for NetworkFairnessConfig {
    fn default() -> (r: NetworkFairnessConfig)
        ensures
            r == (NetworkFairnessConfig {
                pod_pairs_per_tenant: 1,
                bandwidth_limit_mbps: 100_000,
            }),
    {
        NetworkFairnessConfig { pod_pairs_per_tenant: 1, bandwidth_limit_mbps: 100_000 }
    }
}

/// Network fairness assessor that measures bandwidth.
#[derive(Debug, Clone, Copy, PartialEq, Eq, Structural)]
pub struct NetworkFairnessAssessor {
    pub config: NetworkFairnessConfig,
}

impl NetworkFairnessAssessor {
    /// An assessor with the given configuration.
    pub fn new(config: NetworkFairnessConfig) -> (r: NetworkFairnessAssessor)
        ensures
            r.config == config,
    {
        NetworkFairnessAssessor { config }
    }

    /// Name of the subsystem.
    pub fn name(&self) -> (r: &'static str)
        ensures
            r@ == "Network"@,
    {
        "Network"
    }

    /// The unit of the metric.
    pub fn metric_unit(&self) -> (r: &'static str)
        ensures
            r@ == "Mbps"@,
    {
        "Mbps"
    }

    /// Whether more of the metric is better: more bandwidth is.
    pub fn higher_is_better(&self) -> (r: bool)
        ensures
            r,
    {
        true
    }
}

/// The arguments of a bandwidth measurement: the server serves one client, the
/// client sends to the server's address.
pub open spec fn benchmark_args(
    bandwidth_limit_mbps: nat,
    duration_secs: nat,
    server_ip: Option<Seq<char>>,
) -> JsonView {
    let start = empty_array().item(JsonView::Text("iperf3"@));
    match server_ip {
        None => start.item(JsonView::Text("-s"@)).item(JsonView::Text("--one-off"@)),
        Some(ip) => start.item(JsonView::Text("-c"@)).item(JsonView::Text(ip)).item(
            JsonView::Text("-t"@),
        ).item(JsonView::Text(decimal(duration_secs))).item(JsonView::Text("--bandwidth"@)).item(
            JsonView::Text(decimal(bandwidth_limit_mbps) + "M"@),
        ).item(JsonView::Text("--udp"@)),
    }
}

/// The pod of a bandwidth measurement: a server where no address is given, else
/// the client that sends to it.
pub open spec fn benchmark_pod(
    bandwidth_limit_mbps: nat,
    duration_secs: nat,
    server_ip: Option<Seq<char>>,
    pair_index: nat,
) -> JsonView {
    script_pod(
        if server_ip is None {
            server_name(pair_index)
        } else {
            client_name(pair_index)
        },
        empty_object().with("name"@, JsonView::Text("iperf3"@)).with(
            "image"@,
            JsonView::Text("networkstatic/iperf3"@),
        ).with(
            "ports"@,
            empty_array().item(empty_object().with("containerPort"@, JsonView::Number(5201))),
        ).with("args"@, benchmark_args(bandwidth_limit_mbps, duration_secs, server_ip)),
    )
}

/// Creates the pod of a bandwidth measurement.
pub fn benchmark_pod_manifest(
    bandwidth_limit_mbps: u32,
    duration_secs: u64,
    server_ip: Option<String>,
    pair_index: u32,
) -> (r: Json)
    ensures
        r@ == benchmark_pod(
            bandwidth_limit_mbps as nat,
            duration_secs as nat,
            text_view(server_ip),
            pair_index as nat,
        ),
{
    let start = Json::array().item(Json::text("iperf3"));
    let (name, args) = match &server_ip {
        None => (
            name_of_server(pair_index),
            start.item(Json::text("-s")).item(Json::text("--one-off")),
        ),
        Some(ip) => (
            name_of_client(pair_index),
            start
                .item(Json::text("-c"))
                .item(Json::text(ip))
                .item(Json::text("-t"))
                .item(Json::Text(decimal_of(duration_secs)))
                .item(Json::text("--bandwidth"))
                .item(Json::Text(joined(&decimal_of(bandwidth_limit_mbps as u64), "M")))
                .item(Json::text("--udp")),
        ),
    };
    let container = Json::object()
        .with("name", Json::text("iperf3"))
        .with("image", Json::text("networkstatic/iperf3"))
        .with(
            "ports",
            Json::array().item(Json::object().with("containerPort", Json::Number(5201))),
        )
        .with("args", args);
    pod_with_script(&name, container)
}

/// How often the address of a bandwidth server is asked for.
pub const BENCHMARK_IP_ATTEMPTS: usize = 9;

/// Waiting for the address of a bandwidth server: it is asked for at once, and
/// then twice a second as long as there is none.
pub open spec fn await_benchmark_ip(
    side: Side,
    name: Seq<char>,
    log: Seq<ClusterReplyView>,
    attempt: nat,
    at: int,
) -> ProgressView<Seq<char>>
    decreases BENCHMARK_IP_ATTEMPTS - attempt,
{
    if log.len() <= at {
        ProgressView::Ask(ClusterRequestView::GetPod { side, name })
    } else if log[at].pod_address().len() > 0 {
        ProgressView::Got(log[at].pod_address(), at + 1)
    } else if attempt + 1 >= BENCHMARK_IP_ATTEMPTS {
        ProgressView::Stuck("Server pod has no IP after waiting"@, at + 1)
    } else if log.len() == at + 1 {
        ProgressView::Ask(ClusterRequestView::Pause { millis: 500 })
    } else {
        await_benchmark_ip(side, name, log, attempt + 1, at + 2)
    }
}

/// Creating a pair of a server and a client that measure bandwidth: the client
/// comes two seconds after the server has its address, so that the server
/// listens.
pub open spec fn benchmark_pair_step(
    side: Side,
    bandwidth: nat,
    duration_secs: nat,
    pair_index: nat,
    log: Seq<ClusterReplyView>,
) -> ProgressView<()> {
    let name = server_name(pair_index);
    if log.len() == 0 {
        ProgressView::Ask(
            ClusterRequestView::CreateManifest {
                side,
                manifest: benchmark_pod(bandwidth, duration_secs, None, pair_index),
            },
        )
    } else if log[0].failed() {
        ProgressView::Stuck(log[0].error(), 1)
    } else if log.len() == 1 {
        ProgressView::Ask(ClusterRequestView::AwaitReady { side, name })
    } else if log[1].failed() {
        ProgressView::Stuck(log[1].error(), 2)
    } else {
        match await_benchmark_ip(side, name, log, 0, 2) {
            ProgressView::Ask(request) => ProgressView::Ask(request),
            ProgressView::Stuck(error, at) => ProgressView::Stuck(error, at),
            ProgressView::Got(ip, at) => if log.len() <= at {
                ProgressView::Ask(ClusterRequestView::Pause { millis: 2000 })
            } else if log.len() == at + 1 {
                ProgressView::Ask(
                    ClusterRequestView::CreateManifest {
                        side,
                        manifest: benchmark_pod(bandwidth, duration_secs, Some(ip), pair_index),
                    },
                )
            } else if log[at + 1].failed() {
                ProgressView::Stuck(log[at + 1].error(), at + 2)
            } else if log.len() == at + 2 {
                ProgressView::Ask(
                    ClusterRequestView::AwaitReady { side, name: client_name(pair_index) },
                )
            } else if log[at + 2].failed() {
                ProgressView::Stuck(log[at + 2].error(), at + 3)
            } else {
                ProgressView::Got((), at + 3)
            },
        }
    }
}

/// Waits for the address of a bandwidth server.
fn wait_for_benchmark_ip(side: Side, name: &str, log: &Vec<ClusterReply>, from: usize) -> (r:
    Progress<String>)
    requires
        from <= log.len(),
    ensures
        r@ == await_benchmark_ip(side, name@, reply_views(log@), 0, from as int),
        r matches Progress::Got(_, at) ==> at <= log.len(),
{
    let ghost views = reply_views(log@);
    let mut attempt: usize = 0;
    let mut at: usize = from;
    loop
        invariant
            at <= log.len(),
            attempt < BENCHMARK_IP_ATTEMPTS,
            views == reply_views(log@),
            await_benchmark_ip(side, name@, views, 0, from as int) == await_benchmark_ip(
                side,
                name@,
                views,
                attempt as nat,
                at as int,
            ),
        decreases BENCHMARK_IP_ATTEMPTS - attempt,
    {
        if log.len() == at {
            return Progress::Ask(ClusterRequest::GetPod { side, name: string_from(name) });
        }
        let ip = log[at].pod_address();
        if ip.as_str().unicode_len() > 0 {
            return Progress::Got(ip, at + 1);
        }
        if attempt + 1 == BENCHMARK_IP_ATTEMPTS {
            return Progress::Stuck(string_from("Server pod has no IP after waiting"), at + 1);
        }
        if log.len() == at + 1 {
            return Progress::Ask(ClusterRequest::Pause { millis: 500 });
        }
        attempt += 1;
        at += 2;
    }
}

/// Creates a pair of a server and a client that measure bandwidth: the step
/// after the replies so far.
pub fn create_benchmark_pod_pair(
    side: Side,
    bandwidth: u32,
    duration_secs: u64,
    pair_index: u32,
    log: &Vec<ClusterReply>,
) -> (r: Progress<()>)
    ensures
        r@ == benchmark_pair_step(
            side,
            bandwidth as nat,
            duration_secs as nat,
            pair_index as nat,
            reply_views(log@),
        ),
{
    let name = name_of_server(pair_index);
    if log.len() == 0 {
        let manifest = benchmark_pod_manifest(bandwidth, duration_secs, None, pair_index);
        return Progress::Ask(ClusterRequest::CreateManifest { side, manifest });
    }
    if log[0].failed() {
        return Progress::Stuck(log[0].error(), 1);
    }
    if log.len() == 1 {
        return Progress::Ask(ClusterRequest::AwaitReady { side, name });
    }
    if log[1].failed() {
        return Progress::Stuck(log[1].error(), 2);
    }
    let (ip, at): (String, usize) = match wait_for_benchmark_ip(side, &name, log, 2) {
        Progress::Ask(request) => {
            return Progress::Ask(request);
        },
        Progress::Stuck(error, stuck_at) => {
            return Progress::Stuck(error, stuck_at);
        },
        Progress::Got(ip, next) => (ip, next),
    };
    if log.len() == at {
        return Progress::Ask(ClusterRequest::Pause { millis: 2000 });
    }
    if log.len() == at + 1 {
        let manifest = benchmark_pod_manifest(bandwidth, duration_secs, Some(ip), pair_index);
        return Progress::Ask(ClusterRequest::CreateManifest { side, manifest });
    }
    if log[at + 1].failed() {
        return Progress::Stuck(log[at + 1].error(), at + 2);
    }
    if log.len() == at + 2 {
        let client = name_of_client(pair_index);
        return Progress::Ask(ClusterRequest::AwaitReady { side, name: client });
    }
    if log[at + 2].failed() {
        return Progress::Stuck(log[at + 2].error(), at + 3);
    }
    Progress::Got((), at + 3)
}

/// A figure that may be a bandwidth: the text before a unit, and whether the
/// unit is the thousandfold.
#[derive(Debug)]
pub struct Figure {
    pub text: String,
    pub gigabits: bool,
}

/// What a figure says.
pub struct FigureView {
    pub text: Seq<char>,
    pub gigabits: bool,
}

impl View for Figure {
    type V = FigureView;

    open spec fn view(&self) -> FigureView {
        FigureView { text: self.text@, gigabits: self.gigabits }
    }
}

/// What a list of figures says.
pub open spec fn figure_views(figures: Seq<Figure>) -> Seq<FigureView> {
    Seq::new(figures.len(), |i: int| figures[i]@)
}

/// The figures among the first `n` words: each word before a unit.
pub open spec fn figures_in(list: Seq<Seq<char>>, n: int) -> Seq<FigureView>
    decreases n,
{
    if n <= 1 {
        Seq::empty()
    } else if list[n - 1] == "Mbits/sec"@ {
        figures_in(list, n - 1).push(FigureView { text: list[n - 2], gigabits: false })
    } else if list[n - 1] == "Gbits/sec"@ {
        figures_in(list, n - 1).push(FigureView { text: list[n - 2], gigabits: true })
    } else {
        figures_in(list, n - 1)
    }
}

/// The figures of a line that names a bandwidth.
pub open spec fn line_figures(line: Seq<char>) -> Seq<FigureView> {
    if has_text(line, "Mbits/sec"@) || has_text(line, "Gbits/sec"@) {
        figures_in(words(line), words(line).len() as int)
    } else {
        Seq::empty()
    }
}

/// The figures of the last `n` lines, the last line first.
pub open spec fn figures_from_end(list: Seq<Seq<char>>, n: int) -> Seq<FigureView>
    decreases n,
{
    if n <= 0 {
        Seq::empty()
    } else {
        figures_from_end(list, n - 1) + line_figures(list[list.len() - n])
    }
}

/// Adds the figures of a line.
fn add_figures(figures: &mut Vec<Figure>, line: &Vec<char>)
    ensures
        figure_views(final(figures)@) == figure_views(old(figures)@) + line_figures(line@),
{
    let ghost before = figure_views(figures@);
    let text = string_of(line, 0, line.len());
    assert(text@ =~= line@);
    if !contains(&text, "Mbits/sec") && !contains(&text, "Gbits/sec") {
        assert(before + seq![] =~= before);
        return ;
    }
    let list = words_of(&text);
    let ghost views = texts(list@);
    let mut i: usize = 0;
    assert(before + figures_in(views, 0) =~= before);
    while i < list.len()
        invariant
            i <= list.len(),
            views == texts(list@),
            figure_views(figures@) == before + figures_in(views, i as int),
        decreases list.len() - i,
    {
        assert(views[i as int] == list[i as int]@);
        let mega = list[i] == string_from("Mbits/sec");
        let giga = list[i] == string_from("Gbits/sec");
        let ghost so_far = figures_in(views, i as int);
        let ghost earlier = figure_views(figures@);
        if i > 0 && (mega || giga) {
            assert(views[i - 1] == list[i - 1]@);
            let figure = Figure { text: list[i - 1].clone(), gigabits: !mega };
            let ghost said = figure@;
            figures.push(figure);
            assert(figure_views(figures@) =~= earlier.push(said));
            assert(earlier.push(said) =~= before + so_far.push(said));
        }
        i += 1;
    }
}

/// The figures in a measurement's output that may be its bandwidth, the likeliest
/// first: the bandwidth is the first of them that is a number.
pub fn parse_iperf3_bandwidth(logs: &str) -> (r: Vec<Figure>)
    ensures
        figure_views(r@) == figures_from_end(lines(logs@), lines(logs@).len() as int),
{
    let found = lines_of(&chars_of(logs));
    let ghost views = char_views(found@);
    let mut figures: Vec<Figure> = Vec::new();
    assert(figure_views(figures@) =~= seq![]);
    let mut n: usize = 0;
    while n < found.len()
        invariant
            n <= found.len(),
            views == char_views(found@),
            figure_views(figures@) == figures_from_end(views, n as int),
        decreases found.len() - n,
    {
        let at: usize = found.len() - 1 - n;
        assert(views[at as int] == found[at as int]@);
        add_figures(&mut figures, &found[at]);
        n += 1;
    }
    figures
}

}
