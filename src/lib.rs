// A website health monitor: the decisions of each probe (retries, backoff,
// the signals read from a response), the gathering of one result per URL in
// a cycle, and the statistics of a cycle. Network I/O, threads and clocks are
// left to the caller.

pub mod cycle;
pub mod numbers;
pub mod probe;
pub mod summary;
pub mod words;
