# npu-sched

A job scheduler for AMD XDNA 2 NPU workloads: a daemon with an HTTP interface and a
command-line client. What it decides and computes is a library written in Verus and proved
against its contracts.

## Layout

- `src/`: the library.
  - `job`, `queue`, `scheduler`, `history`: jobs, the priority queue, the scheduler's state and
    its transitions, and the bounded history.
  - `supervise`, `capture`, `run`, `output`: the steps of a command's run, the capture of its
    output, what it came to, and the limit on kept output.
  - `api`: the requests that the daemon serves and its replies.
  - `client`, `url`, `report`: the client's requests, the URLs, and what it shows.
  - `npu`: the state of the NPU, as the system's files show it.
  - `text`, `time`, `job_id`: texts, points in time and identifiers.
  - `laws`: the scheduler's invariant, that every operation keeps it, and what follows.
- `tests/`: the library on concrete values.
- `app/`: the program around it: arguments, HTTP, processes and files.

## Usage

```
npu-sched serve --port 7890 --concurrency 1
npu-sched submit --name "inference" --cmd "python3 run_model.py" --priority 8 --timeout 120
npu-sched status
npu-sched jobs
npu-sched cancel <job-uuid>
```
